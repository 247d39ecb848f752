use inheritance_vault::identity::Identity;
use inheritance_vault::registry::{Registry, WillError};

fn owner() -> Identity {
    Identity::new(vec![0x0a, 0x01])
}

fn heir() -> Identity {
    Identity::new(vec![0x0b, 0x02])
}

fn stranger() -> Identity {
    Identity::new(vec![0x0c, 0x03])
}

#[test]
fn claim_still_alive_then_granted() {
    let mut reg = Registry::new();
    reg.register(owner(), heir(), "bc1q".to_string(), 3600, vec![0xca, 0xfe], 0);
    assert_eq!(reg.authorize_claim(&heir(), &owner(), 3000).err(), Some(WillError::StillAlive));
    let g = reg.authorize_claim(&heir(), &owner(), 3601).ok().expect("granted");
    assert_eq!(g.secret, vec![0xca, 0xfe]);
    assert_eq!(g.payout_address, "bc1q");
    assert_eq!(g.owner.as_bytes(), owner().as_bytes());
    assert_eq!(g.beneficiary.as_bytes(), heir().as_bytes());
}

#[test]
fn claim_at_boundary_is_still_alive() {
    let mut reg = Registry::new();
    reg.register(owner(), heir(), String::new(), 3600, vec![1], 0);
    assert_eq!(reg.authorize_claim(&heir(), &owner(), 3600).err(), Some(WillError::StillAlive));
}

#[test]
fn beneficiary_key_derivation_waits_for_expiry() {
    let mut reg = Registry::new();
    reg.register(owner(), heir(), String::new(), 100, vec![], 0);
    assert_eq!(reg.authorize_key_derivation(&heir(), &owner(), 50), Err(WillError::AccessDenied));
    assert_eq!(reg.authorize_key_derivation(&heir(), &owner(), 101), Ok(()));
}

#[test]
fn stranger_claim_is_unauthorized() {
    let mut reg = Registry::new();
    reg.register(owner(), heir(), String::new(), 100, vec![5], 0);
    for t in [0u64, 100, 101, u64::MAX] {
        assert_eq!(reg.authorize_claim(&stranger(), &owner(), t).err(), Some(WillError::Unauthorized));
    }
}

#[test]
fn owner_own_claim_is_unauthorized() {
    let mut reg = Registry::new();
    reg.register(owner(), heir(), String::new(), 100, vec![5], 0);
    assert_eq!(reg.authorize_claim(&owner(), &owner(), 500).err(), Some(WillError::Unauthorized));
}

#[test]
fn replaced_beneficiary_loses_claim() {
    let b2 = Identity::new(vec![0x0d]);
    let mut reg = Registry::new();
    reg.register(owner(), heir(), String::new(), 100, vec![5], 0);
    reg.register(owner(), b2.clone(), String::new(), 100, vec![6], 0);
    assert_eq!(reg.authorize_claim(&heir(), &owner(), 500).err(), Some(WillError::Unauthorized));
    assert_eq!(reg.authorize_claim(&b2, &owner(), 500).ok().unwrap().secret, vec![6]);
}

#[test]
fn claim_on_unknown_owner_is_not_found() {
    let reg = Registry::new();
    assert_eq!(reg.authorize_claim(&heir(), &owner(), 10).err(), Some(WillError::NotFound));
}

#[test]
fn claim_without_secret_returns_empty() {
    let mut reg = Registry::new();
    reg.register(owner(), heir(), String::new(), 10, vec![], 0);
    assert_eq!(reg.authorize_claim(&heir(), &owner(), 11).ok().unwrap().secret, Vec::<u8>::new());
}

#[test]
fn heartbeat_blocks_pending_claim() {
    let mut reg = Registry::new();
    reg.register(owner(), heir(), String::new(), 100, vec![1], 0);
    reg.heartbeat(&owner(), 90).unwrap();
    assert_eq!(reg.authorize_claim(&heir(), &owner(), 150).err(), Some(WillError::StillAlive));
    assert!(reg.authorize_claim(&heir(), &owner(), 191).is_ok());
}

#[test]
fn owner_always_derives_own_key() {
    let mut reg = Registry::new();
    assert_eq!(reg.authorize_key_derivation(&owner(), &owner(), 0), Ok(()));
    reg.register(owner(), heir(), String::new(), 100, vec![], 0);
    assert_eq!(reg.authorize_key_derivation(&owner(), &owner(), 50), Ok(()));
    assert_eq!(reg.authorize_key_derivation(&owner(), &owner(), 5000), Ok(()));
}

#[test]
fn unregistered_scope_denies_others() {
    let reg = Registry::new();
    assert_eq!(reg.authorize_key_derivation(&heir(), &owner(), 10), Err(WillError::AccessDenied));
}

#[test]
fn stranger_key_derivation_denied_after_expiry() {
    let mut reg = Registry::new();
    reg.register(owner(), heir(), String::new(), 100, vec![], 0);
    assert_eq!(reg.authorize_key_derivation(&stranger(), &owner(), 1000), Err(WillError::AccessDenied));
}

#[test]
fn anonymous_beneficiary_can_never_claim() {
    let mut reg = Registry::new();
    reg.register(owner(), Identity::anonymous(), String::new(), 10, vec![1], 0);
    assert_eq!(
        reg.authorize_claim(&Identity::anonymous(), &owner(), 100).err(),
        Some(WillError::Unauthorized)
    );
    assert_eq!(
        reg.authorize_key_derivation(&Identity::anonymous(), &owner(), 100),
        Err(WillError::AccessDenied)
    );
}

#[test]
fn anonymous_caller_gets_no_key_for_own_scope() {
    let reg = Registry::new();
    let anon = Identity::anonymous();
    assert_eq!(reg.authorize_key_derivation(&anon, &anon, 0), Err(WillError::AccessDenied));
}
