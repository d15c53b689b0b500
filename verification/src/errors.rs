use vstd::prelude::*;

verus! {

/// Errors of the registry store.
///
/// `DuplicateInstance` doubles as the generic "write failed" kind for
/// services, instances and identities alike; a duplicate key on an
/// upsert is an overwrite, never this error.
#[derive(Debug, Clone, Copy, PartialEq, Eq, Structural)]
pub enum RegistryError {
    ServiceNotFound,
    InstanceNotFound,
    DuplicateInstance,
}

/// The message that each registry error carries.
pub open spec fn spec_registry_error_message(e: RegistryError) -> Seq<char> {
    match e {
        RegistryError::ServiceNotFound => "Service not found"@,
        RegistryError::InstanceNotFound => "Instance not found"@,
        RegistryError::DuplicateInstance => "Duplicate instance"@,
    }
}

impl RegistryError {
    /// A short description of the error, for adapters that print it.
    pub fn message(&self) -> (r: &'static str)
        ensures
            r@ == spec_registry_error_message(*self),
    {
        match self {
            RegistryError::ServiceNotFound => "Service not found",
            RegistryError::InstanceNotFound => "Instance not found",
            RegistryError::DuplicateInstance => "Duplicate instance",
        }
    }
}

/// Errors of the authorization overlay.
#[derive(Debug, Clone, Copy, PartialEq, Eq, Structural)]
pub enum AuthError {
    /// The token is malformed, its signature does not verify, or it has
    /// expired.
    Unauthenticated,
    /// The caller is authenticated but no role of its claims grants the
    /// required permission.
    InsufficientPermission,
}

} // verus!
