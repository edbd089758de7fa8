use rustvault::api::ApiResponse;
use rustvault::errors::VaultError;
use rustvault::gui::VaultApp;
use rustvault::session::SessionManager;
use rustvault::store::CredentialStore;
use rustvault::vault::{add_entry, delete_entry, get_entry, list_entries};

#[test]
fn scenario_acme_alice_round_trip_and_corruption() {
    let mut store = CredentialStore::new();
    let tenant = store.create_tenant("acme", "2024-01-01").unwrap();
    store.create_tenant_user(tenant, "alice", "pw1").unwrap();

    let mut sm = SessionManager::new();
    let user = sm.login(&store, "alice", "pw1").unwrap();
    assert!(!user.is_superuser);
    let session = sm.current.as_ref().unwrap();
    assert_eq!(session.tenant.as_ref().unwrap().name, "acme");
    assert!(session.encryption_key.is_some());

    add_entry(&mut store, &sm, "db_pass", "secret123").unwrap();
    let value = get_entry(&store, &sm, "db_pass").unwrap();
    assert_eq!(value, "secret123");

    // corrupt the stored ciphertext by one byte
    for e in store.entries.iter_mut() {
        if e.name == "db_pass" {
            e.ciphertext[0] ^= 0xff;
        }
    }
    let r = get_entry(&store, &sm, "db_pass");
    assert_eq!(r.unwrap_err(), VaultError::DecryptionFailed);
}

#[test]
fn login_with_wrong_password_leaves_session_sealed() {
    let mut store = CredentialStore::new();
    let tenant = store.create_tenant("acme", "").unwrap();
    store.create_tenant_user(tenant, "alice", "pw1").unwrap();

    let mut sm = SessionManager::new();
    let r = sm.login(&store, "alice", "wrong");
    assert_eq!(r.unwrap_err(), VaultError::InvalidCredentials);
    assert!(sm.current.is_none());
}

#[test]
fn superuser_session_cannot_touch_the_vault() {
    let mut store = CredentialStore::new();
    store.create_superuser("root", "adminpw").unwrap();

    let mut sm = SessionManager::new();
    let user = sm.login(&store, "root", "adminpw").unwrap();
    assert!(user.is_superuser);
    let session = sm.current.as_ref().unwrap();
    assert!(session.tenant.is_none());
    assert!(session.encryption_key.is_none());

    let r = add_entry(&mut store, &sm, "k", "v");
    assert_eq!(r.unwrap_err(), VaultError::PermissionDenied);
    let r = get_entry(&store, &sm, "k");
    assert_eq!(r.unwrap_err(), VaultError::PermissionDenied);
    let r = list_entries(&store, &sm);
    assert_eq!(r.unwrap_err(), VaultError::PermissionDenied);
    let r = delete_entry(&mut store, &sm, "k");
    assert_eq!(r.unwrap_err(), VaultError::PermissionDenied);
}

#[test]
fn sealed_session_is_unauthenticated() {
    let mut store = CredentialStore::new();
    let sm = SessionManager::new();
    assert_eq!(
        get_entry(&store, &sm, "k").unwrap_err(),
        VaultError::NotAuthenticated
    );
    assert_eq!(
        add_entry(&mut store, &sm, "k", "v").unwrap_err(),
        VaultError::NotAuthenticated
    );
}

#[test]
fn logout_seals_and_discards_the_key() {
    let mut store = CredentialStore::new();
    let tenant = store.create_tenant("acme", "").unwrap();
    store.create_tenant_user(tenant, "alice", "pw1").unwrap();

    let mut sm = SessionManager::new();
    sm.login(&store, "alice", "pw1").unwrap();
    assert!(sm.current.is_some());
    sm.logout();
    assert!(sm.current.is_none());
    let r = get_entry(&store, &sm, "anything");
    assert_eq!(r.unwrap_err(), VaultError::NotAuthenticated);
}

#[test]
fn login_replaces_existing_session() {
    let mut store = CredentialStore::new();
    let a = store.create_tenant("acme", "").unwrap();
    let b = store.create_tenant("globex", "").unwrap();
    store.create_tenant_user(a, "alice", "pw1").unwrap();
    store.create_tenant_user(b, "bob", "pw2").unwrap();

    let mut sm = SessionManager::new();
    sm.login(&store, "alice", "pw1").unwrap();
    add_entry(&mut store, &sm, "k", "alice-secret").unwrap();
    sm.login(&store, "bob", "pw2").unwrap();
    let session = sm.current.as_ref().unwrap();
    assert_eq!(session.user.username, "bob");
    // bob's tenant has no entry named "k" yet
    assert_eq!(
        get_entry(&store, &sm, "k").unwrap_err(),
        VaultError::NotFound
    );
}

#[test]
fn tenants_are_isolated_through_sessions() {
    let mut store = CredentialStore::new();
    let a = store.create_tenant("acme", "").unwrap();
    let b = store.create_tenant("globex", "").unwrap();
    store.create_tenant_user(a, "alice", "pw1").unwrap();
    store.create_tenant_user(b, "bob", "pw2").unwrap();

    let mut sm = SessionManager::new();
    sm.login(&store, "alice", "pw1").unwrap();
    add_entry(&mut store, &sm, "k", "from-alice").unwrap();
    sm.login(&store, "bob", "pw2").unwrap();
    add_entry(&mut store, &sm, "k", "from-bob").unwrap();
    assert_eq!(get_entry(&store, &sm, "k").unwrap(), "from-bob");
    sm.login(&store, "alice", "pw1").unwrap();
    assert_eq!(get_entry(&store, &sm, "k").unwrap(), "from-alice");

    // deleting globex must not affect acme's entries
    store.delete_tenant(b).unwrap();
    assert_eq!(get_entry(&store, &sm, "k").unwrap(), "from-alice");
}

#[test]
fn upsert_through_the_vault_replaces_the_value() {
    let mut store = CredentialStore::new();
    let tenant = store.create_tenant("acme", "").unwrap();
    store.create_tenant_user(tenant, "alice", "pw1").unwrap();
    let mut sm = SessionManager::new();
    sm.login(&store, "alice", "pw1").unwrap();
    add_entry(&mut store, &sm, "k", "first").unwrap();
    add_entry(&mut store, &sm, "k", "second").unwrap();
    assert_eq!(get_entry(&store, &sm, "k").unwrap(), "second");
    let rows = list_entries(&store, &sm).unwrap();
    assert_eq!(rows.len(), 1);
}

#[test]
fn list_reports_undecryptable_rows_individually() {
    let mut store = CredentialStore::new();
    let tenant = store.create_tenant("acme", "").unwrap();
    store.create_tenant_user(tenant, "alice", "pw1").unwrap();
    let mut sm = SessionManager::new();
    sm.login(&store, "alice", "pw1").unwrap();
    add_entry(&mut store, &sm, "good", "fine").unwrap();
    add_entry(&mut store, &sm, "bad", "doomed").unwrap();

    for e in store.entries.iter_mut() {
        if e.name == "bad" {
            e.ciphertext[3] ^= 0x10;
        }
    }

    let rows = list_entries(&store, &sm).unwrap();
    assert_eq!(rows.len(), 2);
    for (name, outcome) in rows {
        if name == "good" {
            assert_eq!(outcome.unwrap(), "fine");
        } else {
            assert_eq!(name, "bad");
            assert_eq!(outcome.unwrap_err(), VaultError::DecryptionFailed);
        }
    }
}

#[test]
fn delete_entry_through_the_vault() {
    let mut store = CredentialStore::new();
    let tenant = store.create_tenant("acme", "").unwrap();
    store.create_tenant_user(tenant, "alice", "pw1").unwrap();
    let mut sm = SessionManager::new();
    sm.login(&store, "alice", "pw1").unwrap();
    add_entry(&mut store, &sm, "k", "v").unwrap();
    delete_entry(&mut store, &sm, "k").unwrap();
    assert_eq!(
        get_entry(&store, &sm, "k").unwrap_err(),
        VaultError::NotFound
    );
    assert_eq!(
        delete_entry(&mut store, &sm, "k").unwrap_err(),
        VaultError::NotFound
    );
}

#[test]
fn envelope_and_view_state_shapes() {
    let ok = ApiResponse::success(5u32);
    assert!(ok.success);
    assert_eq!(ok.data, Some(5u32));
    assert!(ok.error.is_none());

    let err = ApiResponse::<()>::error(String::from("boom"));
    assert!(!err.success);
    assert!(err.data.is_none());
    assert_eq!(err.error.as_deref(), Some("boom"));

    let app = VaultApp::new(String::from("/tmp/vault.db"));
    assert!(app.sealed);
    assert!(app.entries.is_empty());
    assert!(app.password.is_empty());
}

#[test]
fn login_tenant_claim_is_checked() {
    let mut store = CredentialStore::new();
    let tenant = store.create_tenant("acme", "").unwrap();
    store.create_tenant_user(tenant, "alice", "pw1").unwrap();
    store.create_superuser("root", "adminpw").unwrap();
    let mut sm = SessionManager::new();
    let alice = sm.login(&store, "alice", "pw1").unwrap();
    assert!(SessionManager::tenant_claim_ok(&alice, None));
    assert!(SessionManager::tenant_claim_ok(&alice, Some(tenant)));
    assert!(!SessionManager::tenant_claim_ok(&alice, Some(tenant + 1)));
    let root = sm.login(&store, "root", "adminpw").unwrap();
    assert!(SessionManager::tenant_claim_ok(&root, None));
    assert!(!SessionManager::tenant_claim_ok(&root, Some(tenant)));
}

#[test]
fn gui_state_transitions() {
    let mut app = VaultApp::new(String::from("/tmp/vault.db"));
    app.password = String::from("master");

    app.unlock_failed(String::from("wrong password"));
    assert!(app.sealed);
    assert_eq!(app.error, "wrong password");

    app.unlock_with(vec![(String::from("a"), String::from("1"))]);
    assert!(!app.sealed);
    assert!(app.error.is_empty());
    assert_eq!(app.entries.len(), 1);

    app.record_added(String::from("b"), String::from("2"));
    assert_eq!(app.entries.len(), 2);
    assert!(app.new_name.is_empty());

    app.remove_entry_at(0);
    assert_eq!(app.entries.len(), 1);
    assert_eq!(app.entries[0].0, "b");

    app.lock();
    assert!(app.sealed);
    assert!(app.password.is_empty());
    assert!(app.entries.is_empty());
}
