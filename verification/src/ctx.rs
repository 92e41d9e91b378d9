//! The authenticated-request context: an immutable value wrapping the user id
//! resolved from the auth token. Constructed only by auth resolution; the id
//! can be read but never changed (the field is private to this module).

use vstd::prelude::*;

verus! {

#[derive(Clone, Copy, Debug)]
pub struct Ctx {
    user_id: u64,
}

impl View for Ctx {
    type V = u64;

    closed spec fn view(&self) -> u64 {
        self.user_id
    }
}

impl Ctx {
    pub fn new(user_id: u64) -> (r: Self)
        ensures
            r@ == user_id,
    {
        Self { user_id }
    }

    pub fn user_id(&self) -> (r: u64)
        ensures
            r == self@,
    {
        self.user_id
    }
}

} // verus!
