//! The acting user, as the request handlers see them.

use vstd::prelude::*;

verus! {

/// The authenticated user a request acts for; mutations record the name
/// for attribution only.
#[derive(Debug, PartialEq, Eq)]
pub struct User {
    pub username: String,
}

} // verus!
