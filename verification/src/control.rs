//! The session credential that authenticated calls carry.

use vstd::prelude::*;

verus! {

/// The session: an opaque bearer token and the time it expires, in seconds
/// since the epoch. The expiry means something only beside a token.
#[derive(Debug, Default, Clone)]
pub struct ControlBlock {
    pub jwt: String,
    pub exp: i64,
}

impl ControlBlock {
    /// A copy of the session, to hand to one call.
    pub fn snapshot(&self) -> (copy: ControlBlock)
        ensures
            copy == *self,
    {
        ControlBlock { jwt: self.jwt.clone(), exp: self.exp }
    }
}

} // verus!
