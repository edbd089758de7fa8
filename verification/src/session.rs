//! The session state machine: sealed (no session) or unlocked (one
//! authenticated identity, with the tenant's derived key when the identity
//! is a tenant user).
//!
//! `login` replaces any existing session outright; `logout` seals
//! unconditionally and discards the key. A failed login leaves the state
//! exactly as it was.

use vstd::prelude::*;

use crate::crypto::derive_key;
use crate::crypto::kdf_of;
use crate::crypto::phc_verifies;
use crate::errors::VaultError;
use crate::store::CredentialStore;
use crate::store::Tenant;
use crate::store::User;

verus! {

/// The ephemeral record of an authenticated identity: the user, its tenant
/// (absent for a superuser) and the encryption key derived at login (absent
/// for a superuser). Never persisted.
pub struct Session {
    pub user: User,
    /// `None` for a superuser.
    pub tenant: Option<Tenant>,
    /// The tenant encryption key, derived from the login password and the
    /// tenant salt; `None` for a superuser.
    pub encryption_key: Option<[u8; 32]>,
}

impl Session {
    /// A session is coherent: a superuser holds no tenant and no key, a
    /// tenant user holds exactly its own tenant and a key.
    pub open spec fn wf(self) -> bool {
        &&& (self.user.is_superuser <==> self.user.tenant_id is None)
        &&& self.user.is_superuser ==> self.tenant is None && self.encryption_key is None
        &&& !self.user.is_superuser ==> self.tenant is Some && self.encryption_key is Some
            && self.user.tenant_id == Some(self.tenant->0.id)
    }
}

/// Whether a username/password pair authenticates against the store.
pub open spec fn auth_ok(store: CredentialStore, username: Seq<char>, password: Seq<char>) -> bool {
    store.has_user(username) && phc_verifies(password, store.spec_user(username).password_hash@)
}

/// Holds the at-most-one live session: **Sealed** (no session) or
/// **Unlocked** (one session).
pub struct SessionManager {
    pub current: Option<Session>,
}

impl SessionManager {
    /// Any session held is coherent.
    pub open spec fn wf(self) -> bool {
        self.current matches Some(s) ==> s.wf()
    }

    /// No session.
    pub open spec fn is_sealed(self) -> bool {
        self.current is None
    }

    /// Start sealed.
    pub fn new() -> (r: SessionManager)
        ensures
            r.wf(),
            r.is_sealed(),
    {
        SessionManager { current: None }
    }

    /// Authenticate and unlock. For a tenant user the tenant's salt is
    /// fetched and the encryption key derived from the supplied password; a
    /// superuser session carries no tenant and no key. An existing session
    /// is replaced outright; on any failure the state does not change.
    pub fn login(&mut self, store: &CredentialStore, username: &str, password: &str) -> (r: Result<
        User,
        VaultError,
    >)
        requires
            old(self).wf(),
            store.wf(),
        ensures
            final(self).wf(),
            r == Err::<User, VaultError>(VaultError::InvalidCredentials) <==> !auth_ok(
                *store,
                username@,
                password@,
            ),
            r == Err::<User, VaultError>(VaultError::KeyDerivation) ==> auth_ok(
                *store,
                username@,
                password@,
            ) && !store.spec_user(username@).is_superuser,
            r matches Err(e) ==> e == VaultError::InvalidCredentials || e
                == VaultError::KeyDerivation,
            r is Err ==> *final(self) == *old(self),
            r matches Ok(u) ==> ({
                let su = store.spec_user(username@);
                &&& auth_ok(*store, username@, password@)
                &&& u.id == su.id
                &&& u.tenant_id == su.tenant_id
                &&& u.username@ == username@
                &&& u.is_superuser == su.is_superuser
                &&& final(self).current matches Some(s) && ({
                    &&& s.user.id == su.id
                    &&& s.user.tenant_id == su.tenant_id
                    &&& s.user.username@ == username@
                    &&& s.user.is_superuser == su.is_superuser
                    &&& su.is_superuser ==> s.tenant is None && s.encryption_key is None
                    &&& !su.is_superuser ==> ({
                        let trec = store.spec_tenant(su.tenant_id->0);
                        &&& s.tenant == Some(trec.tenant)
                        &&& s.encryption_key matches Some(k) && k@ == kdf_of(
                            password@,
                            trec.salt@,
                        )
                    })
                })
            }),
    {
        let user = match store.authenticate_user(username, password) {
            Ok(u) => u,
            Err(e) => {
                return Err(e);
            },
        };
        if user.is_superuser {
            let out = User {
                id: user.id,
                tenant_id: user.tenant_id,
                username: user.username.clone(),
                is_superuser: user.is_superuser,
            };
            self.current = Some(Session { user, tenant: None, encryption_key: None });
            return Ok(out);
        }
        let tenant_id = match user.tenant_id {
            Some(t) => t,
            None => {
                // a non-superuser always has a tenant (store invariant)
                proof {
                    assert(false);
                }
                return Err(VaultError::Storage);
            },
        };
        let salt = match store.get_tenant_salt(tenant_id) {
            Ok(s) => s,
            Err(_) => {
                // the tenant of a stored user always exists (store invariant)
                proof {
                    assert(false);
                }
                return Err(VaultError::Storage);
            },
        };
        let key = match derive_key(password, &salt) {
            Ok(k) => k,
            Err(e) => {
                return Err(e);
            },
        };
        let tenant = match store.get_tenant(tenant_id) {
            Some(t) => t,
            None => {
                proof {
                    assert(false);
                }
                return Err(VaultError::Storage);
            },
        };
        let out = User {
            id: user.id,
            tenant_id: user.tenant_id,
            username: user.username.clone(),
            is_superuser: user.is_superuser,
        };
        self.current = Some(
            Session { user, tenant: Some(tenant), encryption_key: Some(key) },
        );
        Ok(out)
    }

    /// The tenant check of a login request: when the caller states a tenant
    /// id, it must be the authenticated user's own; stating none is always
    /// acceptable.
    pub fn tenant_claim_ok(user: &User, requested: Option<i64>) -> (r: bool)
        ensures
            r == (requested matches Some(t) ==> user.tenant_id == Some(t)),
    {
        match requested {
            Some(t) => match user.tenant_id {
                Some(own) => own == t,
                None => false,
            },
            None => true,
        }
    }

    /// Seal unconditionally, discarding the session and its key.
    pub fn logout(&mut self)
        ensures
            final(self).wf(),
            final(self).is_sealed(),
    {
        self.current = None;
    }
}

} // verus!
