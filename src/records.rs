//! The persisted records behind one user.
use vstd::prelude::*;

verus! {

/// Stable identifier of a profile record (a UUID as a 128-bit integer).
pub type UserId = u128;

/// What a user may do.
#[derive(Debug, Clone, Copy, PartialEq, Eq)]
pub enum Role {
    Operator,
    Customer,
}

/// Identity attributes of one user.
#[derive(Debug, Clone)]
pub struct Profile {
    pub id: UserId,
    pub email: String,
    pub role: Role,
}

/// Password-hash material of one user.
#[derive(Debug, Clone)]
pub struct Credential {
    pub id: u128,
    pub user: UserId,
    pub phc_string: String,
}

} // verus!
