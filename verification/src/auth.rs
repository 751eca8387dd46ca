//! The auth-zone bookkeeping the state core needs: the stack of auth-zone
//! nodes pushed per call frame, and the authorization errors surfaced to the
//! caller.

use vstd::prelude::*;
use crate::addressing::RENodeId;

verus! {

/// A failed authorization: which callee refused.
#[derive(Debug, Clone, Copy, PartialEq, Eq, Structural, Hash)]
pub struct Unauthorized {
    pub callee: RENodeId,
}

/// An error raised by the authorization module.
#[derive(Debug, Clone, Copy, PartialEq, Eq, Structural, Hash)]
pub enum AuthError {
    VisibilityError(RENodeId),
    Unauthorized(Unauthorized),
    ChildBlueprintDoesNotExist,
}

/// The authorization module's transaction-scoped state: a stack of auth-zone
/// nodes, one per call frame.
#[derive(Debug, Clone, PartialEq, Eq)]
pub struct AuthModule {
    /// Stack of auth zones.
    pub auth_zone_stack: Vec<RENodeId>,
}

impl AuthModule {
    /// The auth zone of the innermost call frame; callers must not ask while
    /// no frame is live.
    pub fn last_auth_zone(&self) -> (r: RENodeId)
        requires
            self.auth_zone_stack@.len() > 0,
        ensures
            r == self.auth_zone_stack@.last(),
    {
        self.auth_zone_stack[self.auth_zone_stack.len() - 1]
    }
}

} // verus!
