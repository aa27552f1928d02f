use vstd::prelude::*;

use crate::auth::User;
use crate::model::{permission_rank, PermissionLevel};

verus! {

/// What a user may change of a user's account, from least to most.
#[derive(Debug, Clone, Copy, PartialEq, Eq, Structural, PartialOrd, Ord)]
pub enum UserEditPermissionLevel {
    NoAccess,
    Edit,
    Admin,
}

/// What `login_user` may change of the account `req_user_id`: an admin may
/// change any account as admin, a user may edit their own, nobody else
/// anything.
pub fn permission_level(login_user: Option<&User>, req_user_id: i64) -> (r: UserEditPermissionLevel)
    ensures
        r == match login_user {
            None => UserEditPermissionLevel::NoAccess,
            Some(u) => if permission_rank(u.permission_level) >= permission_rank(
                PermissionLevel::Admin,
            ) {
                UserEditPermissionLevel::Admin
            } else if u.id == req_user_id {
                UserEditPermissionLevel::Edit
            } else {
                UserEditPermissionLevel::NoAccess
            },
        },
{
    match login_user {
        None => UserEditPermissionLevel::NoAccess,
        Some(login_user) => {
            if login_user.permission_level.at_least(PermissionLevel::Admin) {
                UserEditPermissionLevel::Admin
            } else if login_user.id == req_user_id {
                UserEditPermissionLevel::Edit
            } else {
                UserEditPermissionLevel::NoAccess
            }
        },
    }
}

} // verus!
