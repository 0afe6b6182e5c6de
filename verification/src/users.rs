//! The user directory behind the web handlers: listing, lookup by id and
//! creation, as pure verified operations on the shared vector. The
//! surrounding transport — routing, locking, JSON — stays with the
//! caller.

use vstd::prelude::*;

verus! {

/// A stored user record.
pub struct User {
    pub id: u64,
    pub name: String,
}

/// Mathematical abstraction of a [`User`].
pub struct UserV {
    pub id: u64,
    pub name: Seq<char>,
}

impl View for User {
    type V = UserV;

    open spec fn view(&self) -> UserV {
        UserV { id: self.id, name: self.name@ }
    }
}

impl DeepView for User {
    type V = UserV;

    open spec fn deep_view(&self) -> UserV {
        self@
    }
}

impl User {
    /// An explicit copy with a contract.
    pub fn duplicate(&self) -> (u: User)
        ensures
            u@ == self@,
    {
        User { id: self.id, name: self.name.clone() }
    }
}

/// A snapshot of all users, in storage order.
pub fn get_users(users: &Vec<User>) -> (r: Vec<User>)
    ensures
        r.deep_view() == users.deep_view(),
{
    let mut r: Vec<User> = Vec::new();
    let mut i: usize = 0;
    proof {
        assert(r.deep_view() =~= users.deep_view().take(0));
    }
    while i < users.len()
        invariant
            i <= users@.len(),
            r.deep_view() == users.deep_view().take(i as int),
        decreases users@.len() - i,
    {
        let ghost before = r.deep_view();
        r.push(users[i].duplicate());
        proof {
            assert(r.deep_view() =~= before.push(users.deep_view()[i as int]));
            assert(forall|j: int|
                0 <= j < i ==> #[trigger] users.deep_view().take(i as int)[j]
                    == users.deep_view()[j]);
            assert(r.deep_view() =~= users.deep_view().take(i + 1));
        }
        i += 1;
    }
    proof {
        assert(users.deep_view().take(users@.len() as int) =~= users.deep_view());
    }
    r
}

/// The first user with the given id, if any: `None` exactly when no user
/// carries it.
pub fn get_user_by_id(users: &Vec<User>, id: u64) -> (r: Option<User>)
    ensures
        r is None <==> (forall|j: int|
            0 <= j < users@.len() ==> (#[trigger] users.deep_view()[j]).id != id),
        r matches Some(u) ==> exists|i: int|
            0 <= i < users@.len() && (#[trigger] users.deep_view()[i]).id == id && u@
                == users.deep_view()[i] && (forall|j: int|
                0 <= j < i ==> (#[trigger] users.deep_view()[j]).id != id),
{
    let mut i: usize = 0;
    while i < users.len()
        invariant
            i <= users@.len(),
            forall|j: int| 0 <= j < i ==> (#[trigger] users.deep_view()[j]).id != id,
        decreases users@.len() - i,
    {
        if users[i].id == id {
            let u = users[i].duplicate();
            proof {
                assert(users.deep_view()[i as int].id == id);
            }
            return Some(u);
        }
        i += 1;
    }
    None
}

/// Appends a new user named `name`, with the next id in sequence, and
/// hands back a copy of the stored record.
pub fn create_user(users: &mut Vec<User>, name: String) -> (u: User)
    ensures
        final(users).deep_view() == old(users).deep_view().push(
            (UserV { id: old(users)@.len() as u64, name: name@ }),
        ),
        u@ == (UserV { id: old(users)@.len() as u64, name: name@ }),
{
    let ghost before = users.deep_view();
    let id = users.len() as u64;
    let stored = User { id, name };
    let copy = stored.duplicate();
    users.push(stored);
    proof {
        assert(users.deep_view() =~= before.push((UserV { id, name: copy.name@ })));
    }
    copy
}

} // verus!
