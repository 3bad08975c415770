use ksud::trust_anchor::{AnchorError, TrustAnchor, HASH_LEN};

fn hash_of(byte: u8) -> Vec<u8> {
    vec![byte; HASH_LEN]
}

#[test]
fn set_then_get_round_trips() {
    let mut a = TrustAnchor::new();
    let h = hash_of(0x41);
    assert!(a.set(7, h.clone()).is_ok());
    let got = a.get().expect("anchor must be active after set");
    assert_eq!(got.0, 7);
    assert_eq!(got.1, h);
}

#[test]
fn clear_then_get_reports_absent() {
    let mut a = TrustAnchor::new();
    assert!(a.set(3, hash_of(9)).is_ok());
    a.clear();
    assert!(a.get().is_none());
}

#[test]
fn short_hash_rejected_and_anchor_unchanged() {
    let mut a = TrustAnchor::new();
    assert!(a.set(5, hash_of(1)).is_ok());
    let r = a.set(6, vec![1u8; 63]);
    assert!(matches!(r, Err(AnchorError::InvalidHashLength)));
    let got = a.get().expect("prior binding must survive");
    assert_eq!(got.0, 5);
    assert_eq!(got.1, hash_of(1));
}

#[test]
fn long_hash_rejected_on_empty_anchor() {
    let mut a = TrustAnchor::new();
    let r = a.set(6, vec![0u8; 65]);
    assert!(matches!(r, Err(AnchorError::InvalidHashLength)));
    assert!(a.get().is_none());
}

#[test]
fn overwrite_replaces_whole_binding() {
    let mut a = TrustAnchor::new();
    assert!(a.set(1, hash_of(1)).is_ok());
    assert!(a.set(2, hash_of(2)).is_ok());
    let got = a.get().unwrap();
    assert_eq!(got.0, 2);
    assert_eq!(got.1, hash_of(2));
}
