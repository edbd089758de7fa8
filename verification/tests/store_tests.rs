use rustvault::errors::VaultError;
use rustvault::store::CredentialStore;

#[test]
fn create_tenant_assigns_sequential_ids() {
    let mut store = CredentialStore::new();
    let a = store.create_tenant("acme", "2024-01-01").unwrap();
    let b = store.create_tenant("globex", "2024-01-02").unwrap();
    assert_eq!(a, 1);
    assert_eq!(b, 2);
    let tenants = store.list_tenants();
    assert_eq!(tenants.len(), 2);
    assert_eq!(tenants[0].name, "acme");
    assert_eq!(tenants[1].name, "globex");
}

#[test]
fn list_tenants_is_sorted_by_name() {
    let mut store = CredentialStore::new();
    store.create_tenant("globex", "").unwrap();
    store.create_tenant("acme", "").unwrap();
    store.create_tenant("initech", "").unwrap();
    let tenants = store.list_tenants();
    assert_eq!(tenants.len(), 3);
    assert_eq!(tenants[0].name, "acme");
    assert_eq!(tenants[1].name, "globex");
    assert_eq!(tenants[2].name, "initech");
}

#[test]
fn duplicate_tenant_name_is_rejected() {
    let mut store = CredentialStore::new();
    store.create_tenant("acme", "").unwrap();
    let r = store.create_tenant("acme", "");
    assert_eq!(r.unwrap_err(), VaultError::Duplicate);
    assert_eq!(store.list_tenants().len(), 1);
}

#[test]
fn duplicate_username_is_rejected() {
    let mut store = CredentialStore::new();
    let t = store.create_tenant("acme", "").unwrap();
    store.create_tenant_user(t, "alice", "pw1").unwrap();
    let r = store.create_tenant_user(t, "alice", "pw2");
    assert_eq!(r.unwrap_err(), VaultError::Duplicate);
    let r2 = store.create_superuser("alice", "pw3");
    assert_eq!(r2.unwrap_err(), VaultError::Duplicate);
}

#[test]
fn tenant_user_needs_existing_tenant() {
    let mut store = CredentialStore::new();
    let r = store.create_tenant_user(42, "alice", "pw");
    assert_eq!(r.unwrap_err(), VaultError::NotFound);
}

#[test]
fn auth_unknown_user_and_wrong_password_same_error() {
    let mut store = CredentialStore::new();
    let t = store.create_tenant("acme", "").unwrap();
    store.create_tenant_user(t, "realuser", "rightpassword").unwrap();
    let e1 = store.authenticate_user("doesnotexist", "x").unwrap_err();
    let e2 = store.authenticate_user("realuser", "wrongpassword").unwrap_err();
    assert_eq!(e1, e2);
    assert_eq!(e1, VaultError::InvalidCredentials);
}

#[test]
fn auth_success_returns_user() {
    let mut store = CredentialStore::new();
    let t = store.create_tenant("acme", "").unwrap();
    store.create_tenant_user(t, "alice", "pw1").unwrap();
    store.create_superuser("root", "adminpw").unwrap();
    let u = store.authenticate_user("alice", "pw1").unwrap();
    assert_eq!(u.username, "alice");
    assert_eq!(u.tenant_id, Some(t));
    assert!(!u.is_superuser);
    let s = store.authenticate_user("root", "adminpw").unwrap();
    assert!(s.is_superuser);
    assert_eq!(s.tenant_id, None);
}

#[test]
fn tenant_salt_is_stable_and_scoped() {
    let mut store = CredentialStore::new();
    let a = store.create_tenant("acme", "").unwrap();
    let b = store.create_tenant("globex", "").unwrap();
    let sa1 = store.get_tenant_salt(a).unwrap();
    let sa2 = store.get_tenant_salt(a).unwrap();
    let sb = store.get_tenant_salt(b).unwrap();
    assert_eq!(sa1, sa2);
    assert_ne!(sa1, sb);
    assert_eq!(store.get_tenant_salt(99).unwrap_err(), VaultError::NotFound);
}

#[test]
fn entries_do_not_collide_across_tenants() {
    let mut store = CredentialStore::new();
    let a = store.create_tenant("acme", "").unwrap();
    let b = store.create_tenant("globex", "").unwrap();
    store.upsert_entry(a, "k", [1u8; 12], vec![1, 2, 3]).unwrap();
    store.upsert_entry(b, "k", [2u8; 12], vec![4, 5, 6]).unwrap();
    assert_eq!(store.lookup_entry(a, "k").unwrap().ciphertext, vec![1, 2, 3]);
    assert_eq!(store.lookup_entry(b, "k").unwrap().ciphertext, vec![4, 5, 6]);
}

#[test]
fn deleting_one_tenant_leaves_the_other_intact() {
    let mut store = CredentialStore::new();
    let a = store.create_tenant("acme", "").unwrap();
    let b = store.create_tenant("globex", "").unwrap();
    store.create_tenant_user(a, "alice", "pw1").unwrap();
    store.create_tenant_user(b, "bob", "pw2").unwrap();
    store.upsert_entry(a, "k", [1u8; 12], vec![1]).unwrap();
    store.upsert_entry(b, "k", [2u8; 12], vec![2]).unwrap();
    store.delete_tenant(a).unwrap();
    assert!(store.lookup_entry(b, "k").is_some());
    assert!(store.authenticate_user("bob", "pw2").is_ok());
    assert_eq!(store.get_tenant_salt(b).is_ok(), true);
}

#[test]
fn delete_tenant_cascades() {
    let mut store = CredentialStore::new();
    let a = store.create_tenant("acme", "").unwrap();
    store.create_tenant_user(a, "alice", "pw1").unwrap();
    store.upsert_entry(a, "k1", [1u8; 12], vec![1]).unwrap();
    store.upsert_entry(a, "k2", [2u8; 12], vec![2]).unwrap();
    store.delete_tenant(a).unwrap();
    assert_eq!(store.get_tenant_salt(a).unwrap_err(), VaultError::NotFound);
    assert!(store.lookup_entry(a, "k1").is_none());
    assert!(store.lookup_entry(a, "k2").is_none());
    assert_eq!(
        store.authenticate_user("alice", "pw1").unwrap_err(),
        VaultError::InvalidCredentials
    );
    assert_eq!(store.delete_tenant(a).unwrap_err(), VaultError::NotFound);
}

#[test]
fn upsert_replaces_in_place() {
    let mut store = CredentialStore::new();
    let a = store.create_tenant("acme", "").unwrap();
    store.upsert_entry(a, "k", [1u8; 12], vec![1]).unwrap();
    store.upsert_entry(a, "k", [2u8; 12], vec![2]).unwrap();
    let e = store.lookup_entry(a, "k").unwrap();
    assert_eq!(e.nonce, [2u8; 12]);
    assert_eq!(e.ciphertext, vec![2]);
}

#[test]
fn upsert_into_missing_tenant_fails() {
    let mut store = CredentialStore::new();
    let r = store.upsert_entry(7, "k", [0u8; 12], vec![]);
    assert_eq!(r.unwrap_err(), VaultError::NotFound);
}

#[test]
fn delete_missing_entry_reports_not_found() {
    let mut store = CredentialStore::new();
    let a = store.create_tenant("acme", "").unwrap();
    let r = store.delete_entry_for_tenant(a, "absent");
    assert_eq!(r.unwrap_err(), VaultError::NotFound);
    store.upsert_entry(a, "k", [1u8; 12], vec![1]).unwrap();
    store.delete_entry_for_tenant(a, "k").unwrap();
    assert!(store.lookup_entry(a, "k").is_none());
}

#[test]
fn error_labels_are_stable() {
    assert_eq!(VaultError::NotFound.label(), "not found");
    assert_eq!(VaultError::Duplicate.label(), "duplicate name");
    assert_eq!(VaultError::InvalidCredentials.label(), "invalid credentials");
    assert_eq!(VaultError::Storage.label(), "storage error");
    assert_eq!(VaultError::KeyDerivation.label(), "key derivation failed");
    assert_eq!(VaultError::DecryptionFailed.label(), "decryption failed");
    assert_eq!(VaultError::PermissionDenied.label(), "permission denied");
    assert_eq!(VaultError::NotAuthenticated.label(), "not authenticated");
}
