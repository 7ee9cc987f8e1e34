//! The accounts that may sign in, and the checks on a change of password.
use vstd::prelude::*;

verus! {

/// An account: its name and the hash of its password.
#[derive(Clone, Debug, PartialEq, Eq)]
pub struct User {
    pub name: String,
    pub hashed_pass: String,
}

/// The first of `users` whose name is `name`.
pub fn get_user_by_name(users: &Vec<User>, name: &String) -> (r: Option<usize>)
    ensures
        match r {
            Some(i) => i < users.len() && users@[i as int].name@ == name@ && forall|k: int|
                0 <= k < i ==> (#[trigger] users@[k]).name@ != name@,
            None => forall|k: int| 0 <= k < users.len() ==> (#[trigger] users@[k]).name@ != name@,
        },
{
    let mut i: usize = 0;
    while i < users.len()
        invariant
            i <= users.len(),
            forall|k: int| 0 <= k < i ==> (#[trigger] users@[k]).name@ != name@,
        decreases users.len() - i,
    {
        if users[i].name == *name {
            return Some(i);
        }
        i = i + 1;
    }
    None
}

/// Whether a request to change the password is complete: every field is
/// filled in and the new password is confirmed. The old password is checked
/// against the stored hash apart from this.
pub fn password_change_complete(
    name: &String,
    old_password: &String,
    new_password: &String,
    password_confirmation: &String,
) -> (r: bool)
    ensures
        r == (name@.len() > 0 && old_password@.len() > 0 && new_password@.len() > 0
            && password_confirmation@.len() > 0 && new_password@ == password_confirmation@),
{
    name.as_str().unicode_len() > 0 && old_password.as_str().unicode_len() > 0
        && new_password.as_str().unicode_len() > 0
        && password_confirmation.as_str().unicode_len() > 0 && *new_password
        == *password_confirmation
}

} // verus!
