//! Shapes of the hosted-identity sign-in.

use vstd::prelude::*;

verus! {

/// The identity provider's view of a user.
pub struct StackUser {
    pub id: String,
    pub email: Option<String>,
    pub display_name: Option<String>,
}

/// A request-scoped authenticated user.
pub struct StackAuthUser(pub StackUser);

} // verus!
