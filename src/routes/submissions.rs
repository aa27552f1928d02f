use vstd::prelude::*;

use crate::auth::User;
use crate::model::{permission_rank, PermissionLevel};

verus! {

/// What a user may do with a submission.
#[derive(Debug, Clone, Copy, PartialEq, Eq, Structural)]
pub enum SubmissionPermissionLevel {
    NoAccess,
    View,
    Edit,
}

impl SubmissionPermissionLevel {
    pub fn can_view(self) -> (r: bool)
        ensures
            r == (self != SubmissionPermissionLevel::NoAccess),
    {
        match self {
            SubmissionPermissionLevel::NoAccess => false,
            SubmissionPermissionLevel::View | SubmissionPermissionLevel::Edit => true,
        }
    }

    pub fn can_edit(self) -> (r: bool)
        ensures
            r == (self == SubmissionPermissionLevel::Edit),
    {
        match self {
            SubmissionPermissionLevel::NoAccess | SubmissionPermissionLevel::View => false,
            SubmissionPermissionLevel::Edit => true,
        }
    }
}

/// What `login_user` may do with a submission by `submitter` to a problem by
/// `problem_author`: an admin or the submitter may edit it, the author of
/// the problem (if still a problem author) may view it, nobody else may see
/// it.
pub fn permission_level(login_user: Option<&User>, submitter: i64, problem_author: Option<i64>) -> (r:
    SubmissionPermissionLevel)
    ensures
        r == match login_user {
            None => SubmissionPermissionLevel::NoAccess,
            Some(u) => if permission_rank(u.permission_level) >= permission_rank(
                PermissionLevel::Admin,
            ) || u.id == submitter {
                SubmissionPermissionLevel::Edit
            } else if problem_author matches Some(a) && permission_rank(u.permission_level)
                >= permission_rank(PermissionLevel::ProblemAuthor) && u.id == a {
                SubmissionPermissionLevel::View
            } else {
                SubmissionPermissionLevel::NoAccess
            },
        },
{
    let login_user = match login_user {
        Some(u) => u,
        None => return SubmissionPermissionLevel::NoAccess,
    };
    if login_user.permission_level.at_least(PermissionLevel::Admin) || login_user.id == submitter {
        return SubmissionPermissionLevel::Edit;
    }
    match problem_author {
        Some(author) => {
            if login_user.permission_level.at_least(PermissionLevel::ProblemAuthor)
                && login_user.id == author {
                return SubmissionPermissionLevel::View;
            }
        },
        None => {},
    }
    SubmissionPermissionLevel::NoAccess
}

} // verus!
