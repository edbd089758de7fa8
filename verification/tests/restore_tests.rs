use rustvault::errors::VaultError;
use rustvault::session::SessionManager;
use rustvault::store::{CredentialStore, Tenant};
use rustvault::vault::{add_entry, get_entry};

fn rebuild(store: &CredentialStore) -> CredentialStore {
    let mut copy = CredentialStore::new();
    for t in &store.tenants {
        copy.restore_tenant(
            Tenant {
                id: t.tenant.id,
                name: t.tenant.name.clone(),
                created_at: t.tenant.created_at.clone(),
            },
            &t.salt,
        )
        .unwrap();
    }
    for u in &store.users {
        copy.restore_user(u.id, u.tenant_id, &u.username, &u.password_hash, u.is_superuser)
            .unwrap();
    }
    for e in &store.entries {
        copy.upsert_entry(e.tenant_id, &e.name, e.nonce, e.ciphertext.clone())
            .unwrap();
    }
    copy
}

#[test]
fn reloaded_store_serves_the_same_secrets() {
    let mut store = CredentialStore::new();
    let tenant = store.create_tenant("acme", "2024-01-01").unwrap();
    store.create_tenant_user(tenant, "alice", "pw1").unwrap();
    let mut sm = SessionManager::new();
    sm.login(&store, "alice", "pw1").unwrap();
    add_entry(&mut store, &sm, "db_pass", "secret123").unwrap();

    let reloaded = rebuild(&store);
    let mut sm2 = SessionManager::new();
    sm2.login(&reloaded, "alice", "pw1").unwrap();
    assert_eq!(get_entry(&reloaded, &sm2, "db_pass").unwrap(), "secret123");
}

#[test]
fn reloaded_store_keeps_ids_past_deletions() {
    let mut store = CredentialStore::new();
    let a = store.create_tenant("acme", "").unwrap();
    let b = store.create_tenant("globex", "").unwrap();
    store.delete_tenant(a).unwrap();

    let reloaded = rebuild(&store);
    assert_eq!(reloaded.get_tenant(b).unwrap().name, "globex");
    // a fresh tenant must not reuse an id that was ever assigned
    let mut reloaded = reloaded;
    let c = reloaded.create_tenant("initech", "").unwrap();
    assert!(c > b);
}

#[test]
fn restore_rejects_corrupt_rows() {
    let mut store = CredentialStore::new();
    let bad_id = Tenant { id: 0, name: String::from("x"), created_at: String::new() };
    assert_eq!(
        store.restore_tenant(bad_id, &[0u8; 32]).unwrap_err(),
        VaultError::Storage
    );
    let ok = Tenant { id: 3, name: String::from("acme"), created_at: String::new() };
    store.restore_tenant(ok, &[1u8; 32]).unwrap();
    let dup_name = Tenant { id: 4, name: String::from("acme"), created_at: String::new() };
    assert_eq!(
        store.restore_tenant(dup_name, &[2u8; 32]).unwrap_err(),
        VaultError::Duplicate
    );
    // a superuser row claiming a tenant is incoherent
    assert_eq!(
        store.restore_user(1, Some(3), "root", "hash", true).unwrap_err(),
        VaultError::Storage
    );
    // a user row of a missing tenant
    assert_eq!(
        store.restore_user(1, Some(9), "alice", "hash", false).unwrap_err(),
        VaultError::NotFound
    );
    store.restore_user(5, Some(3), "alice", "hash", false).unwrap();
    assert_eq!(
        store.restore_user(5, None, "other", "hash", true).unwrap_err(),
        VaultError::Duplicate
    );
}
