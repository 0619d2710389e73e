use vstd::prelude::*;

verus! {

/// The authenticated caller of a request: an immutable value object carrying
/// the user identifier derived from the auth cookie. Built once per request
/// by context resolution and handed to the handlers that need ownership
/// information.
#[derive(Debug, Clone, Copy, PartialEq, Eq, Structural)]
pub struct Context {
    pub user_id: u64,
}

impl Context {
    pub fn new(user_id: u64) -> (ctx: Context)
        ensures
            ctx.user_id == user_id,
    {
        Context { user_id }
    }
}

} // verus!
