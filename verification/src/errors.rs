use vstd::prelude::*;

verus! {

/// The closed set of failure kinds that the core reports.
///
/// Adapters branch on the kind; the core never collapses kinds into free-form
/// messages.
#[derive(Debug, Clone, Copy, PartialEq, Eq, Structural)]
pub enum VaultError {
    /// The durable layer could not perform a read or write.
    Storage,
    /// A referenced tenant or entry does not exist.
    NotFound,
    /// A tenant name or username collided on create.
    Duplicate,
    /// Unknown username or wrong password; deliberately a single kind for
    /// both, so a caller cannot enumerate valid usernames.
    InvalidCredentials,
    /// The key-derivation function itself failed; never depends on the
    /// password's content.
    KeyDerivation,
    /// Wrong key or tampered ciphertext; deliberately undifferentiated, so
    /// that the outcome leaks no key-validity information.
    DecryptionFailed,
    /// A superuser attempted vault access, or the session does not own the
    /// tenant in question.
    PermissionDenied,
    /// No session is unlocked.
    NotAuthenticated,
}

impl VaultError {
    /// A short stable label for the kind, for adapters that print errors.
    pub fn label(&self) -> (r: &'static str)
        ensures
            r@ == self.spec_label(),
    {
        match self {
            VaultError::Storage => "storage error",
            VaultError::NotFound => "not found",
            VaultError::Duplicate => "duplicate name",
            VaultError::InvalidCredentials => "invalid credentials",
            VaultError::KeyDerivation => "key derivation failed",
            VaultError::DecryptionFailed => "decryption failed",
            VaultError::PermissionDenied => "permission denied",
            VaultError::NotAuthenticated => "not authenticated",
        }
    }

    /// What `label` returns for each kind.
    pub open spec fn spec_label(self) -> Seq<char> {
        match self {
            VaultError::Storage => "storage error"@,
            VaultError::NotFound => "not found"@,
            VaultError::Duplicate => "duplicate name"@,
            VaultError::InvalidCredentials => "invalid credentials"@,
            VaultError::KeyDerivation => "key derivation failed"@,
            VaultError::DecryptionFailed => "decryption failed"@,
            VaultError::PermissionDenied => "permission denied"@,
            VaultError::NotAuthenticated => "not authenticated"@,
        }
    }
}

} // verus!
