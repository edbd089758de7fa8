//! Plain data shapes exchanged with the HTTP adapter: request bodies, the
//! uniform success/error envelope, and the login response. The adapter owns
//! serialization and status-code mapping; the core only fills these values.

use vstd::prelude::*;

use crate::store::Tenant;
use crate::store::User;

verus! {

/// Body of an unlock request: the master password.
pub struct UnlockRequest {
    pub password: String,
}

/// Body of an add-entry request.
pub struct AddEntryRequest {
    pub name: String,
    pub value: String,
}

/// Body of a get-entry request.
pub struct GetEntryRequest {
    pub name: String,
}

/// Body of a delete-entry request.
pub struct DeleteEntryRequest {
    pub name: String,
}

/// One decrypted entry as returned to a caller.
pub struct Entry {
    pub name: String,
    pub value: String,
}

/// The service's name and version.
pub struct VersionInfo {
    pub version: String,
    pub name: String,
}

/// The uniform envelope every response is wrapped in: either data or an
/// error message, never both.
pub struct ApiResponse<T> {
    pub success: bool,
    pub data: Option<T>,
    pub error: Option<String>,
}

impl<T> ApiResponse<T> {
    /// A successful envelope carrying data and no error.
    pub fn success(data: T) -> (r: Self)
        ensures
            r.success,
            r.data == Some(data),
            r.error is None,
    {
        Self { success: true, data: Some(data), error: None }
    }

    /// A failed envelope carrying an error message and no data.
    pub fn error(message: String) -> (r: ApiResponse<()>)
        ensures
            !r.success,
            r.data is None,
            r.error == Some(message),
    {
        ApiResponse { success: false, data: None, error: Some(message) }
    }
}

/// Body of a login request. The tenant id is optional: a superuser has
/// none, and a tenant user may state one to be checked against its own.
pub struct LoginRequest {
    pub username: String,
    pub password: String,
    pub tenant_id: Option<i64>,
}

/// What a successful login returns.
pub struct LoginResponse {
    pub user: User,
    pub tenant: Option<Tenant>,
    pub is_superuser: bool,
}

} // verus!
