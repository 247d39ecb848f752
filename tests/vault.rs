use inheritance_vault::identity::Identity;
use inheritance_vault::vault::{vault_derivation_path, vault_key_text};

#[test]
fn key_text_is_lowercase_hex() {
    assert_eq!(vault_key_text(&[0x01, 0xab, 0xff, 0x00]), "01abff00");
}

#[test]
fn key_text_of_empty_key_is_empty() {
    assert_eq!(vault_key_text(&[]), "");
}

#[test]
fn derivation_path_is_owner_bytes() {
    let o = Identity::new(vec![9, 8, 7]);
    assert_eq!(vault_derivation_path(&o), vec![vec![9u8, 8, 7]]);
}
