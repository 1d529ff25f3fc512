//! Commands as plain values: what a caller asks for, once its arguments have
//! been read.

use crate::entities::UserId;
use crate::mutation::UserMutation;
use crate::query::UserQuery;
use vstd::prelude::*;

verus! {

/// Register the calling user.
#[derive(Clone, Copy, Debug)]
pub struct UserRegisterCmd;

/// Get a user: the one named, or else the calling user.
#[derive(Clone, Copy, Debug)]
pub struct UserGetCmd {
    pub user_id: Option<u64>,
}

impl UserGetCmd {
    /// The user that the command is about, `caller` being the calling user.
    pub fn target(&self, caller: UserId) -> (id: UserId)
        ensures
            id == match self.user_id {
                Some(named) => named,
                None => caller,
            },
    {
        match self.user_id {
            Some(named) => named,
            None => caller,
        }
    }
}

/// Get the users that a query accepts, a page at a time.
#[derive(Clone, Debug)]
pub struct UserGetsCmd {
    pub query: UserQuery,
    /// The page asked for, counted from one.
    pub page: u32,
}

/// Change a user.
#[derive(Clone, Copy, Debug)]
pub struct UserEditCmd {
    pub user_id: u64,
    pub mutation: UserMutation,
}

/// Unregister a user.
#[derive(Clone, Copy, Debug)]
pub struct UserUnregisterCmd {
    pub user_id: u64,
}

/// Post a content item, written either by somebody known by name only or by
/// a registered user.
#[derive(Clone, Debug)]
pub struct ContentPostCmd {
    pub virt: Option<String>,
    pub user_id: Option<u64>,
    pub content: String,
}

} // verus!
