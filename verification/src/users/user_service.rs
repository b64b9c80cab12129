//! The basic user that owns the agents and sessions of this single-user service.
use vstd::prelude::*;
use vstd::string::*;
use crate::users::db::User;

verus! {

/// The username of the basic user.
pub const BASIC_USER_NAME: &'static str = "basic_user";

/// The email of the basic user.
pub const BASIC_USER_EMAIL: &'static str = "basic@agent-builder.local";

/// What to do about the basic user once the lookup by its name is done.
#[derive(Debug)]
pub enum BasicUserStep {
    /// It exists: use it.
    Existing(User),
    /// It does not: create it with this name and email.
    Create { username: String, email: String },
}

/// The basic user when the lookup found it; otherwise the user to create.
pub fn basic_user_step(found: Option<User>) -> (r: BasicUserStep)
    ensures
        match found {
            Some(u) => r == BasicUserStep::Existing(u),
            None => r matches BasicUserStep::Create { username, email } && username@
                == BASIC_USER_NAME@ && email@ == BASIC_USER_EMAIL@,
        },
{
    match found {
        Some(u) => BasicUserStep::Existing(u),
        None => BasicUserStep::Create {
            username: String::from_str(BASIC_USER_NAME),
            email: String::from_str(BASIC_USER_EMAIL),
        },
    }
}

} // verus!
