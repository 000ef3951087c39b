use crate::store::users_unique;
use crate::store::users_view;
use crate::store::Store;
use crate::store::User;
use crate::store::UserRow;
use crate::authentication::credentials::user_view;
use vstd::prelude::*;

verus! {

/// Whether a user with identifier `user_id` is among `rows`.
pub open spec fn has_user(rows: Seq<UserRow>, user_id: u128) -> bool {
    exists|k: int| 0 <= k < rows.len() && (#[trigger] rows[k]).user_id == user_id
}

/// The place of the user with identifier `user_id`.
pub open spec fn user_index_by_id(rows: Seq<UserRow>, user_id: u128) -> int {
    choose|k: int| 0 <= k < rows.len() && (#[trigger] rows[k]).user_id == user_id
}

/// The user with identifier `user_id`, if there is one.
pub open spec fn user_by_id(rows: Seq<UserRow>, user_id: u128) -> Option<UserRow> {
    if has_user(rows, user_id) {
        Some(rows[user_index_by_id(rows, user_id)])
    } else {
        None
    }
}

/// The user with identifier `user_id`, if there is one.
pub fn get_user(store: &Store, user_id: u128) -> (found: Option<User>)
    requires
        store@.wf(),
    ensures
        user_view(found) == user_by_id(store@.users, user_id),
{
    let ghost rows = store@.users;
    let mut i: usize = 0;
    while i < store.users.len()
        invariant
            i <= store.users.len(),
            rows == users_view(store.users@),
            users_unique(rows),
            forall|j: int| 0 <= j < i ==> (#[trigger] rows[j]).user_id != user_id,
        decreases store.users.len() - i,
    {
        if store.users[i].user_id == user_id {
            proof {
                let k = user_index_by_id(rows, user_id);
                if k < i {
                    assert(rows[k].user_id != rows[i as int].user_id);
                } else if i < k {
                    assert(rows[i as int].user_id != rows[k].user_id);
                }
            }
            return Some(store.users[i].clone());
        }
        i += 1;
    }
    None
}

/// Where requests without a session are sent.
pub open spec fn login_path() -> Seq<char> {
    "/login"@
}

/// What is done with a request to a page that needs a session.
pub enum Access {
    /// The request goes on, with the user attached to it.
    Proceed(User),
    /// The request is answered with a redirect to the path given.
    Redirect(String),
}

/// Decides whether a request may go on: with a user in its session it may,
/// without one it is sent to the login page.
pub fn auth_middleware(session_user: Option<User>) -> (access: Access)
    ensures
        match session_user {
            Some(user) => access matches Access::Proceed(attached) && attached@ == user@,
            None => access matches Access::Redirect(path) && path@ == login_path(),
        },
{
    match session_user {
        Some(user) => Access::Proceed(user),
        None => Access::Redirect("/login".to_owned()),
    }
}

} // verus!
