use crate::bytes::concat_bytes;
use rand::RngCore;
use sha2::Digest;
use vstd::prelude::*;
use vstd::string::*;
use vstd::utf8::*;

verus! {

/// The number of random bytes in a salt.
pub const SALT_SIZE: usize = 16;

/// The number of bytes in a derived key.
pub const KEY_SIZE: usize = 32;

/// The SHA-256 digest of a byte sequence.
pub uninterp spec fn sha256(data: Seq<u8>) -> Seq<u8>;

/// Calls `Digest::digest` of `sha2::Sha256`.
///
/// Trusted: the 32 bytes returned are the digest named by [`sha256`], a
/// function of the input alone.
#[verifier::external_body]
fn sha256_digest(data: &[u8]) -> (digest: [u8; 32])
    ensures
        digest@ == sha256(data@),
{
    sha2::Sha256::digest(data).into()
}

/// Calls `RngCore::fill_bytes` on `OsRng` over a zeroed buffer of `len`
/// bytes.
///
/// Trusted: the buffer that comes back has the length asked for. Nothing is
/// claimed of its contents. The call panics if the operating system's
/// generator cannot be read, whatever the length asked for.
#[verifier::external_body]
pub(crate) fn os_random_bytes(len: usize) -> (bytes: Vec<u8>)
    ensures
        bytes@.len() == len,
{
    let mut bytes = vec![0u8; len];
    aes_gcm::aead::OsRng.fill_bytes(&mut bytes);
    bytes
}

/// A 256-bit key bound to one machine and one salt. It lives only in memory.
pub struct DerivedKey {
    pub bytes: [u8; 32],
}

impl View for DerivedKey {
    type V = Seq<u8>;

    open spec fn view(&self) -> Seq<u8> {
        self.bytes@
    }
}

impl DerivedKey {
    /// A key made of the given bytes.
    pub fn from_bytes(bytes: [u8; 32]) -> (key: DerivedKey)
        ensures
            key@ == bytes@,
    {
        DerivedKey { bytes }
    }

    /// The key's bytes.
    pub fn as_bytes(&self) -> (bytes: &[u8; 32])
        ensures
            bytes@ == self@,
    {
        &self.bytes
    }
}

/// The key that belongs to a machine identity and a salt: the digest of the
/// identity's UTF-8 bytes followed by the salt.
pub open spec fn key_material(machine_id: Seq<char>, salt: Seq<u8>) -> Seq<u8> {
    sha256(encode_utf8(machine_id) + salt)
}

/// The key that is resolved when `stored` is what the salt file holds, if
/// there is one, and `fresh` is the salt drawn otherwise.
pub open spec fn resolved_key_material(
    machine_id: Seq<char>,
    stored: Option<Seq<u8>>,
    fresh: Seq<u8>,
) -> Seq<u8> {
    match stored {
        Some(salt) => key_material(machine_id, salt),
        None => key_material(machine_id, fresh),
    }
}

/// Derives the key of a machine identity and a salt. A salt of any length
/// is accepted.
pub fn derive_key(machine_id: &str, salt: &[u8]) -> (key: DerivedKey)
    ensures
        key@ == key_material(machine_id@, salt@),
{
    let input = concat_bytes(machine_id.as_bytes(), salt);
    DerivedKey { bytes: sha256_digest(input.as_slice()) }
}

/// Draws a fresh salt and derives the key that belongs to it. The caller
/// persists the salt.
pub fn generate_device_key(machine_id: &str) -> (res: (DerivedKey, Vec<u8>))
    ensures
        res.1@.len() == SALT_SIZE,
        res.0@ == key_material(machine_id@, res.1@),
{
    let salt = os_random_bytes(SALT_SIZE);
    let key = derive_key(machine_id, salt.as_slice());
    (key, salt)
}

/// A resolved key, with the salt that was drawn for it if none was stored.
pub struct ResolvedKey {
    pub key: DerivedKey,
    /// The salt to persist: `Some` exactly when no salt was stored.
    pub new_salt: Option<Vec<u8>>,
}

/// What a stored salt holds.
pub open spec fn stored_bytes(stored: Option<&[u8]>) -> Option<Seq<u8>> {
    match stored {
        Some(salt) => Some(salt@),
        None => None,
    }
}

/// The salt that was drawn, or nothing where none was.
pub open spec fn drawn_bytes(drawn: Option<Vec<u8>>) -> Seq<u8> {
    match drawn {
        Some(salt) => salt@,
        None => Seq::empty(),
    }
}

/// Resolves the key from the machine identity and the contents of the salt
/// file, if it exists.
///
/// A stored salt is used as it is, whatever its length, and nothing is to be
/// persisted. Without one a salt of `SALT_SIZE` random bytes is drawn and
/// handed back to be persisted.
pub fn get_key(machine_id: &str, stored_salt: Option<&[u8]>) -> (res: ResolvedKey)
    ensures
        res.new_salt is None <==> stored_salt is Some,
        res.new_salt is Some ==> drawn_bytes(res.new_salt).len() == SALT_SIZE,
        res.key@ == resolved_key_material(
            machine_id@,
            stored_bytes(stored_salt),
            drawn_bytes(res.new_salt),
        ),
{
    match stored_salt {
        Some(salt) => ResolvedKey { key: derive_key(machine_id, salt), new_salt: None },
        None => {
            let (key, salt) = generate_device_key(machine_id);
            ResolvedKey { key, new_salt: Some(salt) }
        },
    }
}

/// Key stability: with a salt stored, the resolved key depends on the
/// machine identity and that salt alone, not on what would have been drawn.
pub proof fn lemma_key_stable(
    machine_id: Seq<char>,
    salt: Seq<u8>,
    fresh_a: Seq<u8>,
    fresh_b: Seq<u8>,
)
    ensures
        resolved_key_material(machine_id, Some(salt), fresh_a) == resolved_key_material(
            machine_id,
            Some(salt),
            fresh_b,
        ),
        resolved_key_material(machine_id, Some(salt), fresh_a) == key_material(machine_id, salt),
{
}

/// First use establishes the key: once the salt that was drawn is stored,
/// the key resolved from the store is the key of the first use.
pub proof fn lemma_first_use_establishes_key(
    machine_id: Seq<char>,
    drawn: Seq<u8>,
    drawn_later: Seq<u8>,
)
    ensures
        resolved_key_material(machine_id, Some(drawn), drawn_later) == resolved_key_material(
            machine_id,
            None,
            drawn,
        ),
{
}

} // verus!
