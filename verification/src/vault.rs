//! Tenant-scoped entry operations, gated by the session.
//!
//! Every operation resolves the tenant scope from the session, never from
//! caller-supplied input, so cross-tenant access is structurally
//! impossible. A sealed session is rejected as unauthenticated; a superuser
//! session is rejected with a permission error, never silently served.

use vstd::prelude::*;

use crate::crypto::aead_dec;
use crate::crypto::decrypt;
use crate::crypto::encrypt;
use crate::crypto::plaintext_len_limit;
use crate::errors::VaultError;
use crate::session::SessionManager;
use crate::store::entry_matches;
use crate::store::entry_same_key;
use crate::store::CredentialStore;

verus! {

/// The session holds an unlocked tenant user (not sealed, not a superuser).
pub open spec fn tenant_session(sm: SessionManager) -> bool {
    sm.current matches Some(s) && !s.user.is_superuser
}

/// The tenant the session is scoped to (meaningful under `tenant_session`).
pub open spec fn session_tenant_id(sm: SessionManager) -> i64 {
    sm.current->0.user.tenant_id->0
}

/// The session's encryption key (meaningful under `tenant_session`).
pub open spec fn session_key(sm: SessionManager) -> Seq<u8> {
    sm.current->0.encryption_key->0@
}

/// Encrypt a value under the session key and upsert it under the session's
/// tenant. Replacing an existing name swaps ciphertext and nonce in one
/// step; no other row changes.
pub fn add_entry(store: &mut CredentialStore, sm: &SessionManager, name: &str, value: &str) -> (r:
    Result<(), VaultError>)
    requires
        old(store).wf(),
        sm.wf(),
    ensures
        final(store).wf(),
        sm.is_sealed() ==> r == Err::<(), VaultError>(VaultError::NotAuthenticated),
        (sm.current matches Some(s) && s.user.is_superuser) ==> r == Err::<(), VaultError>(
            VaultError::PermissionDenied,
        ),
        r is Err ==> *final(store) == *old(store),
        tenant_session(*sm) ==> ({
            let tid = session_tenant_id(*sm);
            &&& (r == Err::<(), VaultError>(VaultError::NotFound) <==> !old(store).has_tenant(tid))
            &&& (value@.len() <= plaintext_len_limit() ==> (r is Ok <==> old(store).has_tenant(
                tid,
            )))
            &&& (r == Err::<(), VaultError>(VaultError::Storage) ==> old(store).has_tenant(tid)
                && value@.len() > plaintext_len_limit())
            &&& (r matches Err(e) ==> e == VaultError::NotFound || e == VaultError::Storage)
            &&& (r is Ok ==> ({
                let e = final(store).spec_entry(tid, name@);
                &&& final(store).has_entry(tid, name@)
                &&& aead_dec(session_key(*sm), e.nonce@, e.ciphertext@) == Some(value@)
                &&& forall|t: i64, n: Seq<char>|
                    !(t == tid && n == name@) ==> #[trigger] final(store).has_entry(t, n) == old(store).has_entry(t, n)
                &&& forall|t: i64, n: Seq<char>|
                    !(t == tid && n == name@) && old(store).has_entry(t, n) ==> #[trigger] final(store).spec_entry(t, n) == old(store).spec_entry(t, n)
                &&& final(store).tenants@ == old(store).tenants@
                &&& final(store).users@ == old(store).users@
            }))
        }),
{
    let session = match &sm.current {
        Some(s) => s,
        None => {
            return Err(VaultError::NotAuthenticated);
        },
    };
    if session.user.is_superuser {
        return Err(VaultError::PermissionDenied);
    }
    let key = match &session.encryption_key {
        Some(k) => k,
        None => {
            // a tenant-user session always carries a key (session invariant)
            proof {
                assert(false);
            }
            return Err(VaultError::Storage);
        },
    };
    let tenant_id = match session.user.tenant_id {
        Some(t) => t,
        None => {
            proof {
                assert(false);
            }
            return Err(VaultError::Storage);
        },
    };
    if store.get_tenant(tenant_id).is_none() {
        return Err(VaultError::NotFound);
    }
    let (ciphertext, nonce) = match encrypt(value, key) {
        Ok(p) => p,
        Err(e) => {
            return Err(e);
        },
    };
    store.upsert_entry(tenant_id, name, nonce, ciphertext)
}

/// Decrypt and return one entry of the session's tenant. A missing name is
/// reported as such; a wrong key and a tampered ciphertext fail with the
/// same undifferentiated error.
pub fn get_entry(store: &CredentialStore, sm: &SessionManager, name: &str) -> (r: Result<
    String,
    VaultError,
>)
    requires
        store.wf(),
        sm.wf(),
    ensures
        sm.is_sealed() ==> r == Err::<String, VaultError>(VaultError::NotAuthenticated),
        (sm.current matches Some(s) && s.user.is_superuser) ==> r == Err::<String, VaultError>(
            VaultError::PermissionDenied,
        ),
        tenant_session(*sm) ==> ({
            let tid = session_tenant_id(*sm);
            let key = session_key(*sm);
            &&& (r == Err::<String, VaultError>(VaultError::NotFound) <==> !store.has_entry(
                tid,
                name@,
            ))
            &&& (store.has_entry(tid, name@) ==> ({
                let e = store.spec_entry(tid, name@);
                &&& (aead_dec(key, e.nonce@, e.ciphertext@) matches Some(p) ==> r matches Ok(v)
                    && v@ == p)
                &&& (aead_dec(key, e.nonce@, e.ciphertext@) is None ==> r == Err::<
                    String,
                    VaultError,
                >(VaultError::DecryptionFailed))
            }))
        }),
{
    let session = match &sm.current {
        Some(s) => s,
        None => {
            return Err(VaultError::NotAuthenticated);
        },
    };
    if session.user.is_superuser {
        return Err(VaultError::PermissionDenied);
    }
    let key = match &session.encryption_key {
        Some(k) => k,
        None => {
            proof {
                assert(false);
            }
            return Err(VaultError::Storage);
        },
    };
    let tenant_id = match session.user.tenant_id {
        Some(t) => t,
        None => {
            proof {
                assert(false);
            }
            return Err(VaultError::Storage);
        },
    };
    let entry = match store.lookup_entry(tenant_id, name) {
        Some(e) => e,
        None => {
            return Err(VaultError::NotFound);
        },
    };
    decrypt(&entry.ciphertext, key, &entry.nonce)
}

/// Decrypt every entry of the session's tenant. A row that fails to
/// decrypt is reported as a per-row error naming the entry, never silently
/// dropped.
#[verifier::rlimit(100)]
pub fn list_entries(store: &CredentialStore, sm: &SessionManager) -> (r: Result<
    Vec<(String, Result<String, VaultError>)>,
    VaultError,
>)
    requires
        store.wf(),
        sm.wf(),
    ensures
        sm.is_sealed() ==> r == Err::<Vec<(String, Result<String, VaultError>)>, VaultError>(
            VaultError::NotAuthenticated,
        ),
        (sm.current matches Some(s) && s.user.is_superuser) ==> r == Err::<
            Vec<(String, Result<String, VaultError>)>,
            VaultError,
        >(VaultError::PermissionDenied),
        tenant_session(*sm) ==> (r matches Ok(rows) && {
            let tid = session_tenant_id(*sm);
            let key = session_key(*sm);
            &&& forall|x: int|
                0 <= x < rows@.len() ==> ({
                    let e = store.spec_entry(tid, (#[trigger] rows@[x]).0@);
                    &&& store.has_entry(tid, rows@[x].0@)
                    &&& (rows@[x].1 matches Ok(v) ==> aead_dec(key, e.nonce@, e.ciphertext@)
                        == Some(v@))
                    &&& (rows@[x].1 matches Err(err) ==> err == VaultError::DecryptionFailed
                        && aead_dec(key, e.nonce@, e.ciphertext@) is None)
                })
            &&& forall|n: Seq<char>|
                #[trigger] store.has_entry(tid, n) ==> exists|x: int|
                    0 <= x < rows@.len() && rows@[x].0@ == n
            &&& forall|x: int, y: int|
                0 <= x < y < rows@.len() ==> (#[trigger] rows@[x]).0@ != (#[trigger] rows@[y]).0@
        }),
{

    let session = match &sm.current {
        Some(s) => s,
        None => {
            return Err(VaultError::NotAuthenticated);
        },
    };
    if session.user.is_superuser {
        return Err(VaultError::PermissionDenied);
    }
    let key = match &session.encryption_key {
        Some(k) => k,
        None => {
            proof {
                assert(false);
            }
            return Err(VaultError::Storage);
        },
    };
    let tenant_id = match session.user.tenant_id {
        Some(t) => t,
        None => {
            proof {
                assert(false);
            }
            return Err(VaultError::Storage);
        },
    };
    let mut rows: Vec<(String, Result<String, VaultError>)> = Vec::new();
    let ghost mut idxs: Seq<int> = Seq::empty();
    let mut i: usize = 0;
    while i < store.entries.len()
        invariant
            store.wf(),
            i <= store.entries@.len(),
            idxs.len() == rows@.len(),
            forall|x: int|
                #![trigger rows@[x]]
                0 <= x < rows@.len() ==> ({
                    let e = store.entries@[idxs[x]];
                    &&& 0 <= idxs[x] < i
                    &&& e.tenant_id == tenant_id
                    &&& e.name@ == rows@[x].0@
                    &&& (rows@[x].1 matches Ok(v) ==> aead_dec(key@, e.nonce@, e.ciphertext@)
                        == Some(v@))
                    &&& (rows@[x].1 matches Err(err) ==> err == VaultError::DecryptionFailed
                        && aead_dec(key@, e.nonce@, e.ciphertext@) is None)
                }),
            forall|x: int, y: int|
                #![trigger idxs[x], idxs[y]]
                0 <= x < y < rows@.len() ==> idxs[x] < idxs[y],
            forall|m: int|
                0 <= m < i && (#[trigger] store.entries@[m]).tenant_id == tenant_id ==> exists|
                    x: int,
                | 0 <= x < rows@.len() && rows@[x].0@ == store.entries@[m].name@,
        decreases store.entries@.len() - i,
    {
        let e = &store.entries[i];
        if e.tenant_id == tenant_id {
            let outcome = decrypt(&e.ciphertext, key, &e.nonce);
            let ghost rows0 = rows@;
            let row = (e.name.clone(), outcome);
            let ghost grow = row;
            rows.push(row);
            proof {
                let idxs0 = idxs;
                idxs = idxs.push(i as int);
                assert(rows@ == rows0.push(grow));
                assert(rows@[rows0.len() as int] == grow);
                assert(grow.0@ == store.entries@[i as int].name@);
                assert(idxs[rows0.len() as int] == i as int);
                assert(forall|x: int| 0 <= x < rows0.len() ==> #[trigger] rows@[x] == rows0[x]);
                assert(forall|x: int| 0 <= x < idxs0.len() ==> #[trigger] idxs[x] == idxs0[x]);
                assert forall|x: int, y: int| 0 <= x < y < rows@.len() implies idxs[x]
                    < idxs[y] by {
                    if y == rows0.len() as int {
                        assert(rows@[x] == rows0[x]);
                        assert(idxs[x] == idxs0[x]);
                        assert(0 <= idxs0[x] < i);
                    } else {
                        assert(idxs[x] == idxs0[x] && idxs[y] == idxs0[y]);
                    }
                }
                assert forall|m: int|
                    0 <= m < i + 1 && (#[trigger] store.entries@[m]).tenant_id == tenant_id
                        implies exists|x: int|
                    0 <= x < rows@.len() && rows@[x].0@ == store.entries@[m].name@ by {
                    if m < i {
                        let x = choose|x: int|
                            0 <= x < rows0.len() && rows0[x].0@ == store.entries@[m].name@;
                        assert(rows@[x].0@ == store.entries@[m].name@);
                    } else {
                        assert(rows@[rows0.len() as int].0@ == store.entries@[m].name@);
                    }
                }
            }
        }
        i += 1;
    }
    proof {
        // carry the row-to-entry pairing over to the keyed view of the store
        assert forall|x: int|
            #![trigger rows@[x]]
            0 <= x < rows@.len() implies ({
            let e = store.spec_entry(tenant_id, rows@[x].0@);
            &&& store.has_entry(tenant_id, rows@[x].0@)
            &&& (rows@[x].1 matches Ok(v) ==> aead_dec(key@, e.nonce@, e.ciphertext@) == Some(v@))
            &&& (rows@[x].1 matches Err(err) ==> err == VaultError::DecryptionFailed && aead_dec(
                key@,
                e.nonce@,
                e.ciphertext@,
            ) is None)
        }) by {
            let m = idxs[x];
            assert(entry_matches(store.entries@[m], tenant_id, rows@[x].0@));
            assert(store.has_entry(tenant_id, rows@[x].0@));
            assert(store.spec_entry(tenant_id, rows@[x].0@) == store.entries@[m]);
        }
        assert forall|x: int, y: int| 0 <= x < y < rows@.len() implies (#[trigger] rows@[x]).0@
            != (#[trigger] rows@[y]).0@ by {
            let rx = rows@[x];
            let ry = rows@[y];
            assert(0 <= idxs[x] < i as int);
            assert(0 <= idxs[y] < i as int);
            assert(idxs[x] < idxs[y]);
            assert(!entry_same_key(store.entries@[idxs[x]], store.entries@[idxs[y]]));
        }
    }
    Ok(rows)
}

/// Remove one entry of the session's tenant, or report that it is absent.
pub fn delete_entry(store: &mut CredentialStore, sm: &SessionManager, name: &str) -> (r: Result<
    (),
    VaultError,
>)
    requires
        old(store).wf(),
        sm.wf(),
    ensures
        final(store).wf(),
        sm.is_sealed() ==> r == Err::<(), VaultError>(VaultError::NotAuthenticated),
        (sm.current matches Some(s) && s.user.is_superuser) ==> r == Err::<(), VaultError>(
            VaultError::PermissionDenied,
        ),
        r is Err ==> *final(store) == *old(store),
        tenant_session(*sm) ==> ({
            let tid = session_tenant_id(*sm);
            &&& (r is Ok <==> old(store).has_entry(tid, name@))
            &&& (r matches Err(e) ==> e == VaultError::NotFound)
            &&& (r is Ok ==> ({
                &&& !final(store).has_entry(tid, name@)
                &&& forall|t: i64, n: Seq<char>|
                    !(t == tid && n == name@) ==> #[trigger] final(store).has_entry(t, n) == old(store).has_entry(t, n)
                &&& forall|t: i64, n: Seq<char>|
                    !(t == tid && n == name@) && old(store).has_entry(t, n) ==> #[trigger] final(store).spec_entry(t, n) == old(store).spec_entry(t, n)
                &&& final(store).tenants@ == old(store).tenants@
                &&& final(store).users@ == old(store).users@
            }))
        }),
{
    let session = match &sm.current {
        Some(s) => s,
        None => {
            return Err(VaultError::NotAuthenticated);
        },
    };
    if session.user.is_superuser {
        return Err(VaultError::PermissionDenied);
    }
    let tenant_id = match session.user.tenant_id {
        Some(t) => t,
        None => {
            proof {
                assert(false);
            }
            return Err(VaultError::Storage);
        },
    };
    store.delete_entry_for_tenant(tenant_id, name)
}

} // verus!
