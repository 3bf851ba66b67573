//! The credentials sent with every request.

use vstd::prelude::*;

verus! {

/// How the service is told who is asking.
#[derive(Debug, PartialEq, Eq)]
pub enum Authorization {
    /// Application key and member token.
    AppKeyAndToken(String, String),
    /// Application key and application secret.
    AppKeyAndSecret(String, String),
}

} // verus!
