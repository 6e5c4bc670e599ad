use device_secrets::codec::{decrypt_base64, encrypt_to_base64};
use device_secrets::keys::DerivedKey;
use device_secrets::settings::{
    decrypt_provider_keys, encrypt_provider_keys, load_api_key, needs_key, store_api_key,
    ApiProviderConfig,
};

fn key() -> DerivedKey {
    DerivedKey::from_bytes([3u8; 32])
}

fn provider(name: &str, api_key: &str, base_url: Option<&str>) -> ApiProviderConfig {
    ApiProviderConfig {
        id: format!("id-{}", name),
        provider_id: format!("provider-{}", name),
        name: name.to_string(),
        api_key: api_key.to_string(),
        base_url: base_url.map(|url| url.to_string()),
    }
}

fn assert_same_but_key(left: &ApiProviderConfig, right: &ApiProviderConfig) {
    assert_eq!(left.id, right.id);
    assert_eq!(left.provider_id, right.provider_id);
    assert_eq!(left.name, right.name);
    assert_eq!(left.base_url, right.base_url);
}

#[test]
fn with_api_key_changes_the_key_only() {
    let entry = provider("a", "old", Some("https://example.test"));
    let changed = entry.with_api_key("new".to_string());
    assert_same_but_key(&entry, &changed);
    assert_eq!(changed.api_key, "new");
    assert_eq!(entry.api_key, "old");
}

#[test]
fn store_api_key_leaves_an_empty_secret_empty() {
    assert_eq!(store_api_key(&key(), "").unwrap(), "");
}

#[test]
fn store_api_key_seals_a_secret() {
    let stored = store_api_key(&key(), "sk-abc123").unwrap();
    assert_ne!(stored, "sk-abc123");
    assert!(!stored.contains("sk-abc123"));
    assert_eq!(stored.len(), 52);
    assert_eq!(decrypt_base64(&key(), &stored).unwrap(), "sk-abc123");
    assert_eq!(load_api_key(Some(&key()), &stored), "sk-abc123");
}

#[test]
fn load_api_key_degrades_to_an_empty_secret() {
    let stored = encrypt_to_base64(&key(), "sk-abc123").unwrap();
    let other = DerivedKey::from_bytes([4u8; 32]);
    assert_eq!(load_api_key(Some(&other), &stored), "");
    assert_eq!(load_api_key(Some(&key()), "not base64"), "");
    assert_eq!(load_api_key(Some(&key()), &stored[..10]), "");
    assert_eq!(load_api_key(None, &stored), "");
    assert_eq!(load_api_key(Some(&key()), ""), "");
    assert_eq!(load_api_key(None, ""), "");
}

#[test]
fn needs_key_looks_for_a_secret() {
    assert!(!needs_key(&vec![]));
    assert!(!needs_key(&vec![provider("a", "", None), provider("b", "", None)]));
    assert!(needs_key(&vec![provider("a", "", None), provider("b", "x", None)]));
}

#[test]
fn saved_entries_load_back() {
    let plain = vec![
        provider("a", "sk-abc123", Some("https://example.test")),
        provider("b", "", None),
        provider("c", "clé secrète", None),
    ];
    let stored = encrypt_provider_keys(&key(), &plain).unwrap();
    assert_eq!(stored.len(), 3);
    for (before, after) in plain.iter().zip(stored.iter()) {
        assert_same_but_key(before, after);
    }
    assert_ne!(stored[0].api_key, "sk-abc123");
    assert_eq!(stored[1].api_key, "");
    assert!(!stored[2].api_key.is_empty());
    let loaded = decrypt_provider_keys(Some(&key()), &stored);
    assert_eq!(loaded.len(), 3);
    for (before, after) in plain.iter().zip(loaded.iter()) {
        assert_same_but_key(before, after);
        assert_eq!(before.api_key, after.api_key);
    }
}

#[test]
fn one_corrupt_entry_does_not_spoil_the_others() {
    let plain = vec![provider("a", "first", None), provider("b", "second", None)];
    let mut stored = encrypt_provider_keys(&key(), &plain).unwrap();
    stored[0].api_key.truncate(10);
    let loaded = decrypt_provider_keys(Some(&key()), &stored);
    assert_eq!(loaded.len(), 2);
    assert_eq!(loaded[0].api_key, "");
    assert_eq!(loaded[0].name, "a");
    assert_eq!(loaded[1].api_key, "second");
}

#[test]
fn entries_load_empty_without_a_key() {
    let plain = vec![provider("a", "first", None), provider("b", "", None)];
    let stored = encrypt_provider_keys(&key(), &plain).unwrap();
    let loaded = decrypt_provider_keys(None, &stored);
    assert_eq!(loaded.len(), 2);
    assert_eq!(loaded[0].api_key, "");
    assert_eq!(loaded[1].api_key, "");
    assert_eq!(loaded[0].id, "id-a");
}
