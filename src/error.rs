use vstd::prelude::*;

use crate::text::str_eq;

verus! {

/// The message shown to a user whose input broke the database constraint
/// `name`, for the constraints that input can break.
pub open spec fn constraint_message_spec(name: Seq<char>) -> Option<Seq<char>> {
    if name == "problems_name_not_empty"@ {
        Some("Problem name cannot be empty."@)
    } else if name == "problems_name"@ {
        Some("Problem name can only contain printable characters."@)
    } else if name == "problems_description"@ {
        Some("Problem description can only contain printable characters."@)
    } else if name == "users_username_unique"@ {
        Some("That username is already taken."@)
    } else if name == "users_username"@ {
        Some("Username can only contain lowercase letters, numbers, and underscores."@)
    } else if name == "users_display_name_not_empty"@ {
        Some("Display name cannot be empty."@)
    } else if name == "users_display_name"@ {
        Some("Display name can only contain printable characters."@)
    } else {
        None
    }
}

pub fn constraint_message(name: &str) -> (r: Option<&'static str>)
    ensures
        match r {
            Some(m) => constraint_message_spec(name@) == Some(m@),
            None => constraint_message_spec(name@) is None,
        },
{
    if str_eq(name, "problems_name_not_empty") {
        Some("Problem name cannot be empty.")
    } else if str_eq(name, "problems_name") {
        Some("Problem name can only contain printable characters.")
    } else if str_eq(name, "problems_description") {
        Some("Problem description can only contain printable characters.")
    } else if str_eq(name, "users_username_unique") {
        Some("That username is already taken.")
    } else if str_eq(name, "users_username") {
        Some("Username can only contain lowercase letters, numbers, and underscores.")
    } else if str_eq(name, "users_display_name_not_empty") {
        Some("Display name cannot be empty.")
    } else if str_eq(name, "users_display_name") {
        Some("Display name can only contain printable characters.")
    } else {
        None
    }
}

} // verus!
