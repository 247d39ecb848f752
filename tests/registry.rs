use inheritance_vault::identity::Identity;
use inheritance_vault::registry::{Registry, WillError};

fn id(b: u8) -> Identity {
    Identity::new(vec![b, 0x01])
}

#[test]
fn register_then_get() {
    let mut reg = Registry::new();
    reg.register(id(1), id(2), "bc1qpayout".to_string(), 3600, vec![7, 8], 10);
    let w = reg.get(&id(1)).expect("registered");
    assert_eq!(w.owner.as_bytes(), id(1).as_bytes());
    assert_eq!(w.beneficiary.as_bytes(), id(2).as_bytes());
    assert_eq!(w.payout_address, "bc1qpayout");
    assert_eq!(w.heartbeat_interval, 3600);
    assert_eq!(w.last_active, 10);
    assert_eq!(w.encrypted_secret, Some(vec![7, 8]));
    assert!(reg.get(&id(2)).is_none());
}

#[test]
fn empty_ciphertext_escrows_nothing() {
    let mut reg = Registry::new();
    reg.register(id(1), id(2), String::new(), 60, vec![], 0);
    assert_eq!(reg.get(&id(1)).unwrap().encrypted_secret, None);
}

#[test]
fn reregistering_overwrites_and_clears_secret() {
    let mut reg = Registry::new();
    reg.register(id(1), id(2), "a".to_string(), 60, vec![1], 0);
    reg.register(id(3), id(2), "c".to_string(), 90, vec![3], 5);
    reg.register(id(1), id(4), "b".to_string(), 120, vec![], 30);
    let w = reg.get(&id(1)).unwrap();
    assert_eq!(w.beneficiary.as_bytes(), id(4).as_bytes());
    assert_eq!(w.payout_address, "b");
    assert_eq!(w.heartbeat_interval, 120);
    assert_eq!(w.last_active, 30);
    assert_eq!(w.encrypted_secret, None);
    let other = reg.get(&id(3)).unwrap();
    assert_eq!(other.encrypted_secret, Some(vec![3]));
}

#[test]
fn heartbeat_without_will_is_not_found() {
    let mut reg = Registry::new();
    assert_eq!(reg.heartbeat(&id(1), 5), Err(WillError::NotFound));
}

#[test]
fn heartbeat_moves_last_active_forward_only() {
    let mut reg = Registry::new();
    reg.register(id(1), id(2), String::new(), 100, vec![], 50);
    assert_eq!(reg.heartbeat(&id(1), 120), Ok(()));
    assert_eq!(reg.get(&id(1)).unwrap().last_active, 120);
    assert_eq!(reg.heartbeat(&id(1), 90), Ok(()));
    assert_eq!(reg.get(&id(1)).unwrap().last_active, 120);
    assert_eq!(reg.heartbeat(&id(1), 120), Ok(()));
    assert_eq!(reg.get(&id(1)).unwrap().last_active, 120);
}

#[test]
fn heartbeat_revives_an_expired_owner() {
    let mut reg = Registry::new();
    reg.register(id(1), id(2), String::new(), 100, vec![], 0);
    assert!(reg.list_by_beneficiary(&id(2), 500)[0].is_expired);
    reg.heartbeat(&id(1), 500).unwrap();
    let info = &reg.list_by_beneficiary(&id(2), 500)[0];
    assert!(!info.is_expired);
    assert_eq!(info.time_remaining, 100);
}

#[test]
fn update_secret_replaces_ciphertext() {
    let mut reg = Registry::new();
    reg.register(id(1), id(2), String::new(), 100, vec![1, 2], 0);
    assert_eq!(reg.update_secret(&id(1), vec![9, 9, 9]), Ok(()));
    assert_eq!(reg.get(&id(1)).unwrap().encrypted_secret, Some(vec![9, 9, 9]));
    assert_eq!(reg.update_secret(&id(1), vec![]), Ok(()));
    assert_eq!(reg.get(&id(1)).unwrap().encrypted_secret, Some(vec![]));
}

#[test]
fn update_secret_without_will_is_not_found() {
    let mut reg = Registry::new();
    assert_eq!(reg.update_secret(&id(1), vec![1]), Err(WillError::NotFound));
    assert!(reg.get(&id(1)).is_none());
}

#[test]
fn will_status_reports_settings() {
    let mut reg = Registry::new();
    assert_eq!(reg.will_status(&id(1)), Err(WillError::NotFound));
    reg.register(id(1), id(2), String::new(), 3600, vec![], 42);
    let st = reg.will_status(&id(1)).unwrap();
    assert_eq!(st.heartbeat_interval, 3600);
    assert_eq!(st.last_active, 42);
}

#[test]
fn list_by_beneficiary_selects_matching_wills() {
    let mut reg = Registry::new();
    reg.register(id(1), id(9), "addr-one".to_string(), 100, vec![], 0);
    reg.register(id(2), id(8), "addr-two".to_string(), 100, vec![], 0);
    reg.register(id(3), id(9), "addr-three".to_string(), 10, vec![], 0);
    let list = reg.list_by_beneficiary(&id(9), 50);
    assert_eq!(list.len(), 2);
    let first = list.iter().find(|i| i.owner.as_bytes() == id(1).as_bytes()).unwrap();
    assert_eq!(first.payout_address, "addr-one");
    assert_eq!(first.time_remaining, 50);
    assert!(!first.is_expired);
    let third = list.iter().find(|i| i.owner.as_bytes() == id(3).as_bytes()).unwrap();
    assert_eq!(third.time_remaining, 0);
    assert!(third.is_expired);
    assert!(reg.list_by_beneficiary(&id(7), 50).is_empty());
}

#[test]
fn identities_compare_by_bytes() {
    assert!(id(1).same_as(&id(1)));
    assert!(!id(1).same_as(&id(2)));
    assert!(!Identity::new(vec![1]).same_as(&Identity::new(vec![1, 0])));
    assert_eq!(id(5).clone().as_bytes(), &[5, 1]);
}

#[test]
fn anonymous_identity_matches_candid() {
    let anon = candid::Principal::anonymous();
    assert_eq!(Identity::anonymous().as_bytes(), anon.as_slice());
    assert!(Identity::new(anon.as_slice().to_vec()).is_anonymous());
    assert!(!id(4).is_anonymous());
    assert!(!Identity::new(vec![]).is_anonymous());
}
