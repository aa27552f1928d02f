use vstd::prelude::*;

use crate::auth::User;
use crate::model::{permission_rank, PermissionLevel};

verus! {

/// What a user may do with a problem, from least to most.
#[derive(Debug, Clone, Copy, PartialEq, Eq, Structural, PartialOrd, Ord)]
pub enum ProblemPermissionLevel {
    NoAccess,
    View,
    Edit,
}

/// What `user` may do with a problem created by `problem_created_by`: an
/// admin, or its creator while a problem author, may edit it; anyone may view
/// it if it is visible.
pub fn permission_level(user: Option<&User>, problem_created_by: Option<i64>, problem_visible: bool) -> (r:
    ProblemPermissionLevel)
    ensures
        r == if user matches Some(u) && (permission_rank(u.permission_level) >= permission_rank(
            PermissionLevel::Admin,
        ) || (problem_created_by matches Some(c) && permission_rank(u.permission_level)
            >= permission_rank(PermissionLevel::ProblemAuthor) && u.id == c)) {
            ProblemPermissionLevel::Edit
        } else if problem_visible {
            ProblemPermissionLevel::View
        } else {
            ProblemPermissionLevel::NoAccess
        },
{
    let can_edit = match user {
        None => false,
        Some(user) => {
            user.permission_level.at_least(PermissionLevel::Admin) || match problem_created_by {
                Some(created_by) => user.permission_level.at_least(PermissionLevel::ProblemAuthor)
                    && user.id == created_by,
                None => false,
            }
        },
    };
    if can_edit {
        ProblemPermissionLevel::Edit
    } else if problem_visible {
        ProblemPermissionLevel::View
    } else {
        ProblemPermissionLevel::NoAccess
    }
}

} // verus!
