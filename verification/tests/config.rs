use ksud::module_config::{
    validate_key, validate_value, ConfigError, ConfigTier, ModuleConfigStore, MAX_KEY_LEN,
    MAX_VALUE_LEN,
};

fn set(store: &mut ModuleConfigStore, key: &str, value: &str, tier: ConfigTier) {
    store
        .set(&key.to_string(), &value.to_string(), tier)
        .expect("valid key and value must be accepted");
}

#[test]
fn ephemeral_shadows_persistent() {
    let mut s = ModuleConfigStore::new();
    set(&mut s, "k", "v1", ConfigTier::Persistent);
    set(&mut s, "k", "v2", ConfigTier::Ephemeral);
    assert_eq!(s.get(&"k".to_string()).unwrap(), "v2");
}

#[test]
fn clearing_ephemeral_reveals_persistent() {
    let mut s = ModuleConfigStore::new();
    set(&mut s, "k", "v1", ConfigTier::Persistent);
    set(&mut s, "k", "v2", ConfigTier::Ephemeral);
    s.clear(ConfigTier::Ephemeral);
    assert_eq!(s.get(&"k".to_string()).unwrap(), "v1");
}

#[test]
fn delete_in_one_tier_leaves_the_other() {
    let mut s = ModuleConfigStore::new();
    set(&mut s, "k", "v1", ConfigTier::Persistent);
    set(&mut s, "k", "v2", ConfigTier::Ephemeral);
    s.delete(&"k".to_string(), ConfigTier::Persistent);
    assert_eq!(s.get(&"k".to_string()).unwrap(), "v2");
    set(&mut s, "k", "v1", ConfigTier::Persistent);
    s.delete(&"k".to_string(), ConfigTier::Ephemeral);
    assert_eq!(s.get(&"k".to_string()).unwrap(), "v1");
}

#[test]
fn missing_key_is_a_named_error_not_empty_success() {
    let s = ModuleConfigStore::new();
    match s.get(&"absent".to_string()) {
        Err(ConfigError::KeyNotFound(k)) => assert_eq!(k, "absent"),
        other => panic!("expected KeyNotFound, got {:?}", other),
    }
}

#[test]
fn listing_merges_with_ephemeral_priority() {
    let mut s = ModuleConfigStore::new();
    set(&mut s, "a", "1", ConfigTier::Persistent);
    set(&mut s, "b", "2", ConfigTier::Persistent);
    set(&mut s, "b", "22", ConfigTier::Ephemeral);
    set(&mut s, "c", "3", ConfigTier::Ephemeral);
    let l = s.list();
    let pairs: Vec<(String, String)> =
        l.iter().map(|e| (e.key.clone(), e.value.clone())).collect();
    assert_eq!(
        pairs,
        vec![
            ("a".to_string(), "1".to_string()),
            ("b".to_string(), "22".to_string()),
            ("c".to_string(), "3".to_string()),
        ]
    );
}

#[test]
fn empty_store_lists_empty() {
    let s = ModuleConfigStore::new();
    assert!(s.list().is_empty());
}

#[test]
fn invalid_keys_are_rejected_before_mutation() {
    let mut s = ModuleConfigStore::new();
    for bad in ["", "a/b", "a b", "k\n", "\u{7f}x"] {
        let r = s.set(&bad.to_string(), &"v".to_string(), ConfigTier::Persistent);
        match r {
            Err(ConfigError::InvalidKey(k)) => assert_eq!(k, bad),
            other => panic!("key {:?} must be invalid, got {:?}", bad, other),
        }
    }
    assert!(s.list().is_empty());
}

#[test]
fn key_length_limit_is_enforced() {
    let mut s = ModuleConfigStore::new();
    let just_fits = "k".repeat(MAX_KEY_LEN);
    assert!(s.set(&just_fits, &"v".to_string(), ConfigTier::Persistent).is_ok());
    let too_long = "k".repeat(MAX_KEY_LEN + 1);
    assert!(matches!(
        s.set(&too_long, &"v".to_string(), ConfigTier::Persistent),
        Err(ConfigError::InvalidKey(_))
    ));
}

#[test]
fn values_may_hold_newlines_but_not_other_controls() {
    let mut s = ModuleConfigStore::new();
    assert!(s.set(&"k".to_string(), &"line one\nline two\t.\r".to_string(), ConfigTier::Persistent).is_ok());
    assert!(matches!(
        s.set(&"k".to_string(), &"bad\u{0}byte".to_string(), ConfigTier::Persistent),
        Err(ConfigError::InvalidValue)
    ));
    let too_long = "v".repeat(MAX_VALUE_LEN + 1);
    assert!(matches!(
        s.set(&"k".to_string(), &too_long, ConfigTier::Persistent),
        Err(ConfigError::InvalidValue)
    ));
}

#[test]
fn validators_agree_with_store_acceptance() {
    assert!(validate_key(&"good-key.name_0".to_string()));
    assert!(!validate_key(&"path/like".to_string()));
    assert!(validate_value(&"anything printable".to_string()));
    assert!(!validate_value(&"\u{1}".to_string()));
}

#[test]
fn set_replaces_within_its_tier_only() {
    let mut s = ModuleConfigStore::new();
    set(&mut s, "k", "old", ConfigTier::Persistent);
    set(&mut s, "k", "new", ConfigTier::Persistent);
    assert_eq!(s.get(&"k".to_string()).unwrap(), "new");
    assert_eq!(s.list().len(), 1);
}
