use crate::codec::{
    decrypt_base64, encrypt_to_base64, open_text, Opened, MAX_PLAINTEXT_LEN, NONCE_SIZE, TAG_SIZE,
};
use crate::transport::encoded_len;
use crate::error::CryptoError;
use crate::keys::DerivedKey;
use vstd::prelude::*;
use vstd::string::*;
use vstd::utf8::*;

verus! {

/// One configured API provider. `api_key` holds the secret in memory and its
/// sealed text form on disk.
#[derive(Debug)]
pub struct ApiProviderConfig {
    pub id: String,
    pub provider_id: String,
    pub name: String,
    pub api_key: String,
    pub base_url: Option<String>,
}

/// What a provider entry holds.
pub struct ProviderEntry {
    pub id: Seq<char>,
    pub provider_id: Seq<char>,
    pub name: Seq<char>,
    pub api_key: Seq<char>,
    pub base_url: Option<Seq<char>>,
}

impl View for ApiProviderConfig {
    type V = ProviderEntry;

    open spec fn view(&self) -> ProviderEntry {
        ProviderEntry {
            id: self.id@,
            provider_id: self.provider_id@,
            name: self.name@,
            api_key: self.api_key@,
            base_url: match self.base_url {
                Some(url) => Some(url@),
                None => None,
            },
        }
    }
}

impl ApiProviderConfig {
    /// The same entry with another `api_key`.
    pub fn with_api_key(&self, api_key: String) -> (entry: ApiProviderConfig)
        ensures
            entry@ == (ProviderEntry { api_key: api_key@, ..self@ }),
    {
        ApiProviderConfig {
            id: self.id.clone(),
            provider_id: self.provider_id.clone(),
            name: self.name.clone(),
            api_key,
            base_url: match &self.base_url {
                Some(url) => Some(url.clone()),
                None => None,
            },
        }
    }
}

/// The secret that a stored credential loads as: an empty one stays empty,
/// one that opens under the key gives its secret, and any other, or any
/// without a key, loads as the empty secret.
pub open spec fn loaded_secret(key: Option<Seq<u8>>, stored: Seq<char>) -> Seq<char> {
    if stored.len() == 0 {
        stored
    } else {
        match key {
            Some(bytes) => match open_text(bytes, stored) {
                Opened::Text(secret) => secret,
                _ => Seq::empty(),
            },
            None => Seq::empty(),
        }
    }
}

/// A stored entry as it loads.
pub open spec fn loaded_entry(key: Option<Seq<u8>>, stored: ProviderEntry) -> ProviderEntry {
    ProviderEntry { api_key: loaded_secret(key, stored.api_key), ..stored }
}

/// The length of the text that a non-empty secret is stored as: the
/// encoding of an envelope around its UTF-8 form.
pub open spec fn sealed_len(secret: Seq<char>) -> int {
    encoded_len(NONCE_SIZE + encode_utf8(secret).len() + TAG_SIZE)
}

/// Whether `stored` is the text of a sealed form of `secret` under `key`:
/// an empty secret is left empty; any other is replaced by text of the
/// length of its sealed form, which opens to it and is not the secret
/// itself.
pub open spec fn sealed_secret(key: Seq<u8>, secret: Seq<char>, stored: Seq<char>) -> bool {
    if secret.len() == 0 {
        stored.len() == 0
    } else {
        &&& stored.len() == sealed_len(secret)
        &&& stored.len() > secret.len()
        &&& stored != secret
        &&& open_text(key, stored) == Opened::Text(secret)
    }
}

/// Whether `stored` is a form of `plain` that is fit for disk under `key`:
/// the secret is sealed, and nothing else differs.
pub open spec fn sealed_entry(key: Seq<u8>, plain: ProviderEntry, stored: ProviderEntry) -> bool {
    &&& stored == (ProviderEntry { api_key: stored.api_key, ..plain })
    &&& sealed_secret(key, plain.api_key, stored.api_key)
}

/// A text has no more characters than its UTF-8 form has bytes.
pub proof fn lemma_utf8_len(chars: Seq<char>)
    ensures
        chars.len() <= encode_utf8(chars).len(),
    decreases chars.len(),
{
    if chars.len() > 0 {
        lemma_utf8_len(chars.drop_first());
        assert(encode_scalar(chars[0] as u32).len() >= 1);
    }
}

/// Whether a secret is short enough to be sealed.
pub open spec fn sealable(secret: Seq<char>) -> bool {
    encode_utf8(secret).len() <= MAX_PLAINTEXT_LEN
}

/// The view of an optional key.
pub open spec fn key_bytes(key: Option<&DerivedKey>) -> Option<Seq<u8>> {
    match key {
        Some(k) => Some(k@),
        None => None,
    }
}

/// Loads one stored credential. A credential that cannot be opened loads as
/// the empty secret rather than as an error.
pub fn load_api_key(key: Option<&DerivedKey>, stored: &str) -> (secret: String)
    ensures
        secret@ == loaded_secret(key_bytes(key), stored@),
{
    if stored.is_empty() {
        return String::from_str(stored);
    }
    match key {
        Some(k) => match decrypt_base64(k, stored) {
            Ok(secret) => secret,
            Err(_) => String::new(),
        },
        None => String::new(),
    }
}

/// Seals one credential for disk. An empty secret is stored as it is; any
/// other is never stored in the clear.
///
/// Fails with `AeadError` exactly when the secret is too long to be sealed.
pub fn store_api_key(key: &DerivedKey, secret: &str) -> (res: Result<String, CryptoError>)
    ensures
        match res {
            Ok(stored) => sealable(secret@) && sealed_secret(key@, secret@, stored@),
            Err(e) => !sealable(secret@) && e is AeadError,
        },
{
    if secret.is_empty() {
        assert(encode_utf8(secret@) =~= Seq::<u8>::empty());
        return Ok(String::new());
    }
    proof {
        lemma_utf8_len(secret@);
    }
    encrypt_to_base64(key, secret)
}

/// Tells whether any entry holds a secret, so that a key is needed to
/// store the entries.
pub fn needs_key(providers: &Vec<ApiProviderConfig>) -> (needed: bool)
    ensures
        needed == exists|i: int| 0 <= i < providers@.len() && (#[trigger] providers@[i])@.api_key.len() > 0,
{
    let mut i: usize = 0;
    while i < providers.len()
        invariant
            i <= providers@.len(),
            forall|j: int| 0 <= j < i ==> (#[trigger] providers@[j])@.api_key.len() == 0,
        decreases providers@.len() - i,
    {
        if !providers[i].api_key.as_str().is_empty() {
            return true;
        }
        i += 1;
    }
    false
}

/// Opens the credentials of loaded entries.
///
/// Every entry comes back with its secret in place of the stored text; an
/// entry whose credential cannot be opened, or any entry with a credential
/// when there is no key, comes back with an empty secret. Nothing else
/// changes and no entry is dropped.
pub fn decrypt_provider_keys(key: Option<&DerivedKey>, providers: &Vec<ApiProviderConfig>) -> (loaded:
    Vec<ApiProviderConfig>)
    ensures
        loaded@.len() == providers@.len(),
        forall|i: int|
            0 <= i < providers@.len() ==> (#[trigger] loaded@[i])@ == loaded_entry(
                key_bytes(key),
                providers@[i]@,
            ),
{
    let mut loaded: Vec<ApiProviderConfig> = Vec::new();
    let mut i: usize = 0;
    while i < providers.len()
        invariant
            i <= providers@.len(),
            loaded@.len() == i,
            forall|j: int|
                0 <= j < i ==> (#[trigger] loaded@[j])@ == loaded_entry(
                    key_bytes(key),
                    providers@[j]@,
                ),
        decreases providers@.len() - i,
    {
        let secret = load_api_key(key, providers[i].api_key.as_str());
        loaded.push(providers[i].with_api_key(secret));
        i += 1;
    }
    loaded
}

/// Why entries could not be sealed: the place of the first entry whose
/// secret was refused, and the cause.
#[derive(Debug)]
pub struct SealFailure {
    pub index: usize,
    pub error: CryptoError,
}

/// Seals the credentials of entries that are to be saved.
///
/// Succeeds exactly when every secret can be sealed, and then every entry
/// comes back as a sealed form of itself. The first secret that cannot be
/// sealed aborts the whole operation with `AeadError` and the place of its
/// entry: no entry is handed out with its secret in the clear.
pub fn encrypt_provider_keys(key: &DerivedKey, providers: &Vec<ApiProviderConfig>) -> (res: Result<
    Vec<ApiProviderConfig>,
    SealFailure,
>)
    ensures
        match res {
            Ok(stored) => {
                &&& stored@.len() == providers@.len()
                &&& forall|i: int|
                    0 <= i < providers@.len() ==> sealed_entry(
                        key@,
                        providers@[i]@,
                        (#[trigger] stored@[i])@,
                    )
                &&& forall|i: int|
                    0 <= i < providers@.len() ==> sealable((#[trigger] providers@[i])@.api_key)
            },
            Err(failure) => {
                &&& failure.error is AeadError
                &&& failure.index < providers@.len()
                &&& !sealable(providers@[failure.index as int]@.api_key)
                &&& forall|j: int|
                    0 <= j < failure.index ==> sealable((#[trigger] providers@[j])@.api_key)
            },
        },
{
    let mut stored: Vec<ApiProviderConfig> = Vec::new();
    let mut i: usize = 0;
    while i < providers.len()
        invariant
            i <= providers@.len(),
            stored@.len() == i,
            forall|j: int|
                0 <= j < i ==> sealed_entry(key@, providers@[j]@, (#[trigger] stored@[j])@),
            forall|j: int| 0 <= j < i ==> sealable((#[trigger] providers@[j])@.api_key),
        decreases providers@.len() - i,
    {
        match store_api_key(key, providers[i].api_key.as_str()) {
            Ok(text) => {
                stored.push(providers[i].with_api_key(text));
            },
            Err(error) => {
                return Err(SealFailure { index: i, error });
            },
        }
        i += 1;
    }
    Ok(stored)
}

/// What was sealed for disk loads back unchanged under the same key.
pub proof fn lemma_sealed_entry_loads(key: Seq<u8>, plain: ProviderEntry, stored: ProviderEntry)
    requires
        sealed_entry(key, plain, stored),
    ensures
        loaded_entry(Some(key), stored) == plain,
{
    if plain.api_key.len() == 0 {
        assert(stored.api_key =~= plain.api_key);
    }
}

} // verus!
