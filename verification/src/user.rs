use vstd::prelude::*;
use vstd::std_specs::cmp::PartialEqSpecImpl;

use crate::error::database_error;
use crate::error::failure;
use crate::error::Error;
use crate::error::ErrorKind;
use crate::error::InnerError;
use crate::model::views;
use crate::storage::DiscordLink;
use crate::storage::Storage;
use crate::storage::StorageView;

verus! {

/// Someone who may vote in a scrum and earn its reward.
#[derive(Debug)]
pub struct User {
    pub id: i64,
    pub display_name: String,
    /// How many scrums in a row this user has answered in time.
    pub streak: i64,
}

/// What a [`User`] is in contracts.
pub struct UserView {
    pub id: int,
    pub display_name: Seq<char>,
    pub streak: int,
}

impl View for User {
    type V = UserView;

    open spec fn view(&self) -> UserView {
        UserView { id: self.id as int, display_name: self.display_name@, streak: self.streak as int }
    }
}

/// Two records are the same user when their ids agree, whatever else differs.
impl PartialEq for User {
    fn eq(&self, other: &Self) -> (same: bool) {
        self.id == other.id
    }
}

impl PartialEqSpecImpl for User {
    open spec fn obeys_eq_spec() -> bool {
        true
    }

    open spec fn eq_spec(&self, other: &Self) -> bool {
        self.id == other.id
    }
}

impl Eq for User {

}

impl Clone for User {
    fn clone(&self) -> (copy: User)
        ensures
            copy == *self,
    {
        User { id: self.id, display_name: self.display_name.clone(), streak: self.streak }
    }
}

/// Whether a link ties the chat identity `discord_id` to the user `user_id`.
pub open spec fn is_linked(links: Seq<DiscordLink>, discord_id: u64, user_id: int) -> bool {
    exists|j: int|
        #![trigger links[j]]
        0 <= j < links.len() && links[j].discord_id == discord_id && links[j].user_id == user_id
}

/// Whether `k` is the first row of `users` that a link ties to the chat
/// identity `discord_id`.
pub open spec fn is_user_of(
    users: Seq<UserView>,
    links: Seq<DiscordLink>,
    discord_id: u64,
    k: int,
) -> bool {
    &&& 0 <= k < users.len()
    &&& is_linked(links, discord_id, users[k].id)
    &&& forall|j: int| 0 <= j < k ==> !is_linked(links, discord_id, (#[trigger] users[j]).id)
}

/// The user behind the chat identity `discord_id`: the first user that a
/// link ties to it, if there is one.
pub open spec fn find_user(users: Seq<UserView>, links: Seq<DiscordLink>, discord_id: u64) -> Option<
    UserView,
> {
    if exists|k: int| is_user_of(users, links, discord_id, k) {
        Some(users[choose|k: int| is_user_of(users, links, discord_id, k)])
    } else {
        None
    }
}

/// The users table with the streak of every user with the id `id` one
/// higher. No row comes or goes, and no other field changes.
pub open spec fn incremented(users: Seq<UserView>, id: int) -> Seq<UserView> {
    Seq::new(
        users.len(),
        |i: int|
            if users[i].id == id {
                UserView { streak: users[i].streak + 1, ..users[i] }
            } else {
                users[i]
            },
    )
}

/// The users table with the streak of every user with the id `id` back at
/// zero. No row comes or goes, and no other field changes.
pub open spec fn cleared(users: Seq<UserView>, id: int) -> Seq<UserView> {
    Seq::new(
        users.len(),
        |i: int|
            if users[i].id == id {
                UserView { streak: 0, ..users[i] }
            } else {
                users[i]
            },
    )
}

/// Whether a user with the id `id` has a streak that cannot grow any more.
pub open spec fn streak_is_full(users: Seq<UserView>, id: int) -> bool {
    exists|i: int|
        #![trigger users[i]]
        0 <= i < users.len() && users[i].id == id && users[i].streak == i64::MAX
}

/// The store after [`increment_streak`], and the kind of failure if it failed.
pub open spec fn increment_streak_spec(db: StorageView, id: int) -> (StorageView, Option<ErrorKind>) {
    if streak_is_full(db.users, id) {
        (db, Some(ErrorKind::Database))
    } else {
        (StorageView { users: incremented(db.users, id), ..db }, None)
    }
}

/// The store after [`clear_streak`].
pub open spec fn clear_streak_spec(db: StorageView, id: int) -> StorageView {
    StorageView { users: cleared(db.users, id), ..db }
}

fn links_to(links: &Vec<DiscordLink>, discord_id: u64, user_id: i64) -> (linked: bool)
    ensures
        linked == is_linked(links@, discord_id, user_id as int),
{
    let mut j: usize = 0;
    while j < links.len()
        invariant
            j <= links.len(),
            forall|i: int|
                #![trigger links@[i]]
                0 <= i < j ==> !(links@[i].discord_id == discord_id && links@[i].user_id
                    == user_id),
        decreases links.len() - j,
    {
        if links[j].discord_id == discord_id && links[j].user_id == user_id {
            return true;
        }
        j += 1;
    }
    false
}

/// The user behind the chat identity `discord_id`: the first user that a link
/// ties to it.
pub fn get_user(db: &Storage, discord_id: u64) -> (res: Result<User, Error>)
    ensures
        match res {
            Ok(user) => find_user(db@.users, db@.users_discord_ids, discord_id) == Some(user@),
            Err(err) => err.error.kind() == ErrorKind::UserNotFound && find_user(
                db@.users,
                db@.users_discord_ids,
                discord_id,
            ) is None,
        },
{
    let ghost users = db@.users;
    let ghost links = db@.users_discord_ids;
    let mut k: usize = 0;
    while k < db.users.len()
        invariant
            k <= db.users.len(),
            users == db@.users,
            links == db@.users_discord_ids,
            forall|j: int| 0 <= j < k ==> !is_linked(links, discord_id, (#[trigger] users[j]).id),
        decreases db.users.len() - k,
    {
        proof {
            assert(users[k as int] == db.users@[k as int]@);
        }
        if links_to(&db.users_discord_ids, discord_id, db.users[k].id) {
            let user = db.users[k].clone();
            proof {
                assert(is_user_of(users, links, discord_id, k as int));
                let c = choose|c: int| is_user_of(users, links, discord_id, c);
                assert(is_linked(links, discord_id, users[c].id));
                assert(c == k);
            }
            return Ok(user);
        }
        k += 1;
    }
    proof {
        assert forall|c: int| !is_user_of(users, links, discord_id, c) by {
            if 0 <= c < users.len() {
                assert(!is_linked(links, discord_id, users[c].id));
            }
        }
    }
    Err(Error::new(InnerError::UserNotFound))
}

/// Every user, in the order of the table.
pub fn get_all_users(db: &Storage) -> (res: Result<Vec<User>, Error>)
    ensures
        res matches Ok(users) && users@ == db.users@,
{
    let mut users: Vec<User> = Vec::new();
    let mut i: usize = 0;
    while i < db.users.len()
        invariant
            i <= db.users.len(),
            users@ =~= db.users@.take(i as int),
        decreases db.users.len() - i,
    {
        users.push(db.users[i].clone());
        i += 1;
    }
    assert(db.users@.take(i as int) =~= db.users@);
    Ok(users)
}

fn any_streak_full(users: &Vec<User>, id: i64) -> (full: bool)
    ensures
        full == streak_is_full(views(users@), id as int),
{
    let mut i: usize = 0;
    while i < users.len()
        invariant
            i <= users.len(),
            forall|j: int|
                #![trigger views(users@)[j]]
                0 <= j < i ==> !(views(users@)[j].id == id && views(users@)[j].streak == i64::MAX),
        decreases users.len() - i,
    {
        if users[i].id == id && users[i].streak == i64::MAX {
            assert(views(users@)[i as int] == users@[i as int]@);
            return true;
        }
        assert(views(users@)[i as int] == users@[i as int]@);
        i += 1;
    }
    false
}

/// Raises the streak of the user `id` by one.
pub fn increment_streak(db: &mut Storage, id: i64) -> (res: Result<(), Error>)
    ensures
        (final(db)@, failure(res)) == increment_streak_spec(old(db)@, id as int),
        res is Err ==> *final(db) == *old(db),
        final(db).users_discord_ids == old(db).users_discord_ids,
        final(db).scrums == old(db).scrums,
        final(db).scrum_responses == old(db).scrum_responses,
        final(db).ugocoin_accounts == old(db).ugocoin_accounts,
        final(db).ugocoin_tx_logs == old(db).ugocoin_tx_logs,
{
    if any_streak_full(&db.users, id) {
        return Err(database_error("integer overflow"));
    }
    let mut i: usize = 0;
    while i < db.users.len()
        invariant
            i <= db.users.len(),
            db.users@.len() == old(db).users@.len(),
            !streak_is_full(views(old(db).users@), id as int),
            db.users_discord_ids == old(db).users_discord_ids,
            db.scrums == old(db).scrums,
            db.scrum_responses == old(db).scrum_responses,
            db.ugocoin_accounts == old(db).ugocoin_accounts,
            db.ugocoin_tx_logs == old(db).ugocoin_tx_logs,
            forall|j: int|
                #![trigger db.users@[j]]
                i <= j < db.users@.len() ==> db.users@[j] == old(db).users@[j],
            forall|j: int|
                #![trigger db.users@[j]]
                0 <= j < i ==> db.users@[j]@ == incremented(views(old(db).users@), id as int)[j],
        decreases db.users.len() - i,
    {
        proof {
            assert(views(old(db).users@)[i as int] == old(db).users@[i as int]@);
        }
        if db.users[i].id == id {
            let row = User {
                id: db.users[i].id,
                display_name: db.users[i].display_name.clone(),
                streak: db.users[i].streak + 1,
            };
            db.users.set(i, row);
        }
        i += 1;
    }
    assert(db@.users =~= incremented(old(db)@.users, id as int));
    Ok(())
}

/// Puts the streak of the user `id` back to zero.
pub fn clear_streak(db: &mut Storage, id: i64) -> (res: Result<(), Error>)
    ensures
        res is Ok,
        final(db)@ == clear_streak_spec(old(db)@, id as int),
        final(db).users_discord_ids == old(db).users_discord_ids,
        final(db).scrums == old(db).scrums,
        final(db).scrum_responses == old(db).scrum_responses,
        final(db).ugocoin_accounts == old(db).ugocoin_accounts,
        final(db).ugocoin_tx_logs == old(db).ugocoin_tx_logs,
{
    let mut i: usize = 0;
    while i < db.users.len()
        invariant
            i <= db.users.len(),
            db.users@.len() == old(db).users@.len(),
            db.users_discord_ids == old(db).users_discord_ids,
            db.scrums == old(db).scrums,
            db.scrum_responses == old(db).scrum_responses,
            db.ugocoin_accounts == old(db).ugocoin_accounts,
            db.ugocoin_tx_logs == old(db).ugocoin_tx_logs,
            forall|j: int|
                #![trigger db.users@[j]]
                i <= j < db.users@.len() ==> db.users@[j] == old(db).users@[j],
            forall|j: int|
                #![trigger db.users@[j]]
                0 <= j < i ==> db.users@[j]@ == cleared(views(old(db).users@), id as int)[j],
        decreases db.users.len() - i,
    {
        proof {
            assert(views(old(db).users@)[i as int] == old(db).users@[i as int]@);
        }
        if db.users[i].id == id {
            let row = User {
                id: db.users[i].id,
                display_name: db.users[i].display_name.clone(),
                streak: 0,
            };
            db.users.set(i, row);
        }
        i += 1;
    }
    assert(db@.users =~= cleared(old(db)@.users, id as int));
    Ok(())
}

} // verus!
