//! The transactional store backing the engine: five in-memory relations with
//! the uniqueness invariants the rest of the crate relies on.

use vstd::prelude::*;

use crate::models::{AccessHistory, Door, DoorCode, DoorPermission, InsertedDoor, UserProfile};
use crate::seq_util::{
    find_first, lemma_find_first_at, lemma_find_first_characterize, lemma_find_first_none,
    lemma_remove_where_no_match, lemma_remove_where_single_match, remove_where,
};

verus! {

/// Error a store mutation can report: the row would break a uniqueness
/// constraint.
#[derive(Debug, Clone, Copy, PartialEq, Eq, Structural)]
pub enum StoreError {
    Conflict,
}

/// The five relations, plus the counters from which fresh door and ledger ids
/// are assigned.
pub struct Store {
    pub users: Vec<UserProfile>,
    pub doors: Vec<Door>,
    pub permissions: Vec<DoorPermission>,
    pub codes: Vec<DoorCode>,
    pub history: Vec<AccessHistory>,
    pub next_door_id: i32,
    pub next_record_id: i32,
}

/// Matches the user carrying the given external identity.
pub open spec fn user_discord_pred(d: Seq<char>) -> spec_fn(UserProfile) -> bool {
    |u: UserProfile| u.discord_id@ == d
}

/// Matches the user with the given local id.
pub open spec fn user_id_pred(id: int) -> spec_fn(UserProfile) -> bool {
    |u: UserProfile| u.id == id
}

/// Matches the door with the given id.
pub open spec fn door_id_pred(id: int) -> spec_fn(Door) -> bool {
    |d: Door| d.id == id
}

/// Matches the permission row for one (door, user) pair.
pub open spec fn perm_key_pred(door_id: int, user_id: int) -> spec_fn(DoorPermission) -> bool {
    |p: DoorPermission| p.door_id == door_id && p.user_profile_id == user_id
}

/// Matches the one-time code with the given token.
pub open spec fn code_string_pred(c: Seq<char>) -> spec_fn(DoorCode) -> bool {
    |e: DoorCode| e.code@ == c
}

/// The user with external identity `d`, if any.
pub open spec fn spec_user_by_discord(users: Seq<UserProfile>, d: Seq<char>) -> Option<
    UserProfile,
> {
    find_first(users, user_discord_pred(d))
}

/// The user with local id `id`, if any.
pub open spec fn spec_user_by_id(users: Seq<UserProfile>, id: int) -> Option<UserProfile> {
    find_first(users, user_id_pred(id))
}

/// The door with id `id`, if any.
pub open spec fn spec_door_by_id(doors: Seq<Door>, id: int) -> Option<Door> {
    find_first(doors, door_id_pred(id))
}

/// The permission row for `(door_id, user_id)`, if any.
pub open spec fn spec_permission_for(
    perms: Seq<DoorPermission>,
    door_id: int,
    user_id: int,
) -> Option<DoorPermission> {
    find_first(perms, perm_key_pred(door_id, user_id))
}

/// The one-time code row with token `c`, if any.
pub open spec fn spec_code_by_string(codes: Seq<DoorCode>, c: Seq<char>) -> Option<DoorCode> {
    find_first(codes, code_string_pred(c))
}

impl Store {
    /// Uniqueness constraints of the relations, and the freshness of the two
    /// id counters.
    pub open spec fn wf(self) -> bool {
        &&& (forall|i: int, j: int|
            #![trigger self.users@[i], self.users@[j]]
            0 <= i < j < self.users@.len() ==> self.users@[i].id != self.users@[j].id)
        &&& (forall|i: int, j: int|
            #![trigger self.users@[i], self.users@[j]]
            0 <= i < j < self.users@.len() ==> self.users@[i].discord_id@
                != self.users@[j].discord_id@)
        &&& (forall|i: int, j: int|
            #![trigger self.doors@[i], self.doors@[j]]
            0 <= i < j < self.doors@.len() ==> self.doors@[i].id != self.doors@[j].id)
        &&& (forall|i: int|
            0 <= i < self.doors@.len() ==> #[trigger] self.doors@[i].id < self.next_door_id)
        &&& (forall|i: int, j: int|
            #![trigger self.permissions@[i], self.permissions@[j]]
            0 <= i < j < self.permissions@.len() ==> !(self.permissions@[i].door_id
                == self.permissions@[j].door_id && self.permissions@[i].user_profile_id
                == self.permissions@[j].user_profile_id))
        &&& (forall|i: int, j: int|
            #![trigger self.codes@[i], self.codes@[j]]
            0 <= i < j < self.codes@.len() ==> self.codes@[i].code@ != self.codes@[j].code@)
        &&& (forall|i: int, j: int|
            #![trigger self.history@[i], self.history@[j]]
            0 <= i < j < self.history@.len() ==> self.history@[i].id != self.history@[j].id)
        &&& (forall|i: int|
            0 <= i < self.history@.len() ==> #[trigger] self.history@[i].id
                < self.next_record_id)
    }

    /// An empty store.
    pub fn new() -> (res: Store)
        ensures
            res.wf(),
            res.users@ == Seq::<UserProfile>::empty(),
            res.doors@ == Seq::<Door>::empty(),
            res.permissions@ == Seq::<DoorPermission>::empty(),
            res.codes@ == Seq::<DoorCode>::empty(),
            res.history@ == Seq::<AccessHistory>::empty(),
            res.next_door_id == 1,
            res.next_record_id == 1,
    {
        Store {
            users: Vec::new(),
            doors: Vec::new(),
            permissions: Vec::new(),
            codes: Vec::new(),
            history: Vec::new(),
            next_door_id: 1,
            next_record_id: 1,
        }
    }

    /// Linear scan for a user by external identity.
    pub(crate) fn find_user_by_discord(&self, d: &String) -> (res: Option<&UserProfile>)
        ensures
            res is Some <==> spec_user_by_discord(self.users@, d@) is Some,
            res matches Some(u) ==> spec_user_by_discord(self.users@, d@) == Some(*u),
    {
        let n = self.users.len();
        let mut i: usize = 0;
        while i < n
            invariant
                n == self.users@.len(),
                i <= n,
                forall|k: int| 0 <= k < i ==> !user_discord_pred(d@)(#[trigger] self.users@[k]),
            decreases n - i,
        {
            if self.users[i].discord_id == *d {
                proof {
                    lemma_find_first_at(self.users@, user_discord_pred(d@), i as int);
                }
                return Some(&self.users[i]);
            }
            i += 1;
        }
        proof {
            lemma_find_first_none(self.users@, user_discord_pred(d@));
        }
        None
    }

    /// All users, as stored.
    pub fn get_users(&self) -> (res: &Vec<UserProfile>)
        ensures
            res@ == self.users@,
    {
        &self.users
    }

    /// The user with the given local id.
    pub fn get_user(&self, user_id: i32) -> (res: Option<&UserProfile>)
        ensures
            res is Some <==> spec_user_by_id(self.users@, user_id as int) is Some,
            res matches Some(u) ==> spec_user_by_id(self.users@, user_id as int) == Some(*u),
    {
        let n = self.users.len();
        let mut i: usize = 0;
        while i < n
            invariant
                n == self.users@.len(),
                i <= n,
                forall|k: int| 0 <= k < i ==> !user_id_pred(user_id as int)(
                    #[trigger] self.users@[k],
                ),
            decreases n - i,
        {
            if self.users[i].id == user_id {
                proof {
                    lemma_find_first_at(self.users@, user_id_pred(user_id as int), i as int);
                }
                return Some(&self.users[i]);
            }
            i += 1;
        }
        proof {
            lemma_find_first_none(self.users@, user_id_pred(user_id as int));
        }
        None
    }

    /// The door with the given id.
    pub fn get_door(&self, door_id: i32) -> (res: Option<&Door>)
        ensures
            res is Some <==> spec_door_by_id(self.doors@, door_id as int) is Some,
            res matches Some(d) ==> spec_door_by_id(self.doors@, door_id as int) == Some(*d),
    {
        let n = self.doors.len();
        let mut i: usize = 0;
        while i < n
            invariant
                n == self.doors@.len(),
                i <= n,
                forall|k: int| 0 <= k < i ==> !door_id_pred(door_id as int)(
                    #[trigger] self.doors@[k],
                ),
            decreases n - i,
        {
            if self.doors[i].id == door_id {
                proof {
                    lemma_find_first_at(self.doors@, door_id_pred(door_id as int), i as int);
                }
                return Some(&self.doors[i]);
            }
            i += 1;
        }
        proof {
            lemma_find_first_none(self.doors@, door_id_pred(door_id as int));
        }
        None
    }

    /// The permission row for `(door_id, user_id)`.
    pub(crate) fn find_permission(&self, door_id: i32, user_id: i32) -> (res: Option<
        &DoorPermission,
    >)
        ensures
            res is Some <==> spec_permission_for(
                self.permissions@,
                door_id as int,
                user_id as int,
            ) is Some,
            res matches Some(p) ==> spec_permission_for(
                self.permissions@,
                door_id as int,
                user_id as int,
            ) == Some(*p),
    {
        let n = self.permissions.len();
        let mut i: usize = 0;
        while i < n
            invariant
                n == self.permissions@.len(),
                i <= n,
                forall|k: int| 0 <= k < i ==> !perm_key_pred(door_id as int, user_id as int)(
                    #[trigger] self.permissions@[k],
                ),
            decreases n - i,
        {
            if self.permissions[i].door_id == door_id && self.permissions[i].user_profile_id
                == user_id {
                proof {
                    lemma_find_first_at(
                        self.permissions@,
                        perm_key_pred(door_id as int, user_id as int),
                        i as int,
                    );
                }
                return Some(&self.permissions[i]);
            }
            i += 1;
        }
        proof {
            lemma_find_first_none(self.permissions@, perm_key_pred(door_id as int, user_id as int));
        }
        None
    }

    /// The one-time code row with the given token.
    pub fn get_door_code(&self, code: &String) -> (res: Option<&DoorCode>)
        ensures
            res is Some <==> spec_code_by_string(self.codes@, code@) is Some,
            res matches Some(e) ==> spec_code_by_string(self.codes@, code@) == Some(*e),
    {
        let n = self.codes.len();
        let mut i: usize = 0;
        while i < n
            invariant
                n == self.codes@.len(),
                i <= n,
                forall|k: int| 0 <= k < i ==> !code_string_pred(code@)(#[trigger] self.codes@[k]),
            decreases n - i,
        {
            if self.codes[i].code == *code {
                proof {
                    lemma_find_first_at(self.codes@, code_string_pred(code@), i as int);
                }
                return Some(&self.codes[i]);
            }
            i += 1;
        }
        proof {
            lemma_find_first_none(self.codes@, code_string_pred(code@));
        }
        None
    }

    /// Inserts a user row as given; refused when the local id or the external
    /// identity is already taken.
    pub fn create_user(&mut self, u: UserProfile) -> (res: Result<(), StoreError>)
        requires
            old(self).wf(),
        ensures
            final(self).wf(),
            final(self).doors@ == old(self).doors@,
            final(self).permissions@ == old(self).permissions@,
            final(self).codes@ == old(self).codes@,
            final(self).history@ == old(self).history@,
            spec_user_by_id(old(self).users@, u.id as int) is Some || spec_user_by_discord(
                old(self).users@,
                u.discord_id@,
            ) is Some ==> res == Err::<(), StoreError>(StoreError::Conflict) && *final(self)
                == *old(self),
            spec_user_by_id(old(self).users@, u.id as int) is None && spec_user_by_discord(
                old(self).users@,
                u.discord_id@,
            ) is None ==> res == Ok::<(), StoreError>(()) && final(self).users@ == old(
                self,
            ).users@.push(u),
    {
        if self.get_user(u.id).is_some() {
            return Err(StoreError::Conflict);
        }
        if self.find_user_by_discord(&u.discord_id).is_some() {
            return Err(StoreError::Conflict);
        }
        proof {
            lemma_find_first_characterize(self.users@, user_id_pred(u.id as int));
            lemma_find_first_characterize(self.users@, user_discord_pred(u.discord_id@));
        }
        let ghost prev = self.users@;
        self.users.push(u);
        proof {
            assert forall|i: int, j: int|
                0 <= i < j < self.users@.len() implies #[trigger] self.users@[i].id
                != #[trigger] self.users@[j].id && self.users@[i].discord_id@
                != self.users@[j].discord_id@ by {
                if j == prev.len() {
                    assert(self.users@[i] == prev[i]);
                    assert(!user_id_pred(u.id as int)(prev[i]));
                    assert(!user_discord_pred(u.discord_id@)(prev[i]));
                } else {
                    assert(self.users@[i] == prev[i]);
                    assert(self.users@[j] == prev[j]);
                }
            }
        }
        Ok(())
    }

    /// Inserts a door under a freshly assigned id and returns the stored row.
    pub fn create_door(&mut self, d: InsertedDoor) -> (res: Door)
        requires
            old(self).wf(),
            old(self).next_door_id < i32::MAX,
        ensures
            final(self).wf(),
            final(self).users@ == old(self).users@,
            final(self).permissions@ == old(self).permissions@,
            final(self).codes@ == old(self).codes@,
            final(self).history@ == old(self).history@,
            final(self).next_record_id == old(self).next_record_id,
            res.id == old(self).next_door_id,
            res.about == d.about,
            res.owner_id == d.owner_id,
            spec_door_by_id(old(self).doors@, res.id as int) is None,
            final(self).doors@ == old(self).doors@.push(res),
            final(self).next_door_id == old(self).next_door_id + 1,
    {
        let door = Door { id: self.next_door_id, about: d.about, owner_id: d.owner_id };
        let out = door.clone();
        proof {
            assert forall|k: int| 0 <= k < self.doors@.len() implies !door_id_pred(
                door.id as int,
            )(#[trigger] self.doors@[k]) by {}
            lemma_find_first_none(self.doors@, door_id_pred(door.id as int));
        }
        let ghost prev = self.doors@;
        self.doors.push(door);
        self.next_door_id = self.next_door_id + 1;
        proof {
            assert forall|i: int, j: int|
                0 <= i < j < self.doors@.len() implies #[trigger] self.doors@[i].id
                != #[trigger] self.doors@[j].id by {
                if j == prev.len() {
                    assert(self.doors@[i] == prev[i]);
                } else {
                    assert(self.doors@[i] == prev[i]);
                    assert(self.doors@[j] == prev[j]);
                }
            }
        }
        out
    }

    /// Index of the door with the given id, if present.
    fn find_door_index(&self, door_id: i32) -> (res: Option<usize>)
        ensures
            match res {
                Some(i) => i < self.doors@.len() && door_id_pred(door_id as int)(
                    self.doors@[i as int],
                ) && (forall|k: int| 0 <= k < i ==> !door_id_pred(door_id as int)(
                    #[trigger] self.doors@[k],
                )),
                None => forall|k: int| 0 <= k < self.doors@.len() ==> !door_id_pred(
                    door_id as int,
                )(#[trigger] self.doors@[k]),
            },
    {
        let n = self.doors.len();
        let mut i: usize = 0;
        while i < n
            invariant
                n == self.doors@.len(),
                i <= n,
                forall|k: int| 0 <= k < i ==> !door_id_pred(door_id as int)(
                    #[trigger] self.doors@[k],
                ),
            decreases n - i,
        {
            if self.doors[i].id == door_id {
                return Some(i);
            }
            i += 1;
        }
        None
    }

    /// Deletes the door with the given id; reports whether a row went away.
    pub fn delete_door(&mut self, door_id: i32) -> (removed: bool)
        requires
            old(self).wf(),
        ensures
            final(self).wf(),
            final(self).users@ == old(self).users@,
            final(self).permissions@ == old(self).permissions@,
            final(self).codes@ == old(self).codes@,
            final(self).history@ == old(self).history@,
            final(self).next_door_id == old(self).next_door_id,
            final(self).next_record_id == old(self).next_record_id,
            final(self).doors@ == remove_where(old(self).doors@, door_id_pred(door_id as int)),
            removed == (spec_door_by_id(old(self).doors@, door_id as int) is Some),
    {
        match self.find_door_index(door_id) {
            Some(i) => {
                proof {
                    lemma_find_first_at(self.doors@, door_id_pred(door_id as int), i as int);
                    assert forall|k: int|
                        0 <= k < self.doors@.len() && k != i implies !door_id_pred(
                        door_id as int,
                    )(#[trigger] self.doors@[k]) by {
                        if k > i {
                            assert(self.doors@[i as int].id != self.doors@[k].id);
                        }
                    }
                    lemma_remove_where_single_match(
                        self.doors@,
                        door_id_pred(door_id as int),
                        i as int,
                    );
                    self.doors@.remove_ensures(i as int);
                }
                let ghost prev = self.doors@;
                self.doors.remove(i);
                proof {
                    assert forall|a: int, b: int|
                        0 <= a < b < self.doors@.len() implies #[trigger] self.doors@[a].id
                        != #[trigger] self.doors@[b].id by {
                        let a0: int = if a < i { a } else { a + 1 };
                        let b0: int = if b < i { b } else { b + 1 };
                        assert(self.doors@[a] == prev[a0]);
                        assert(self.doors@[b] == prev[b0]);
                    }
                    assert forall|k: int|
                        0 <= k < self.doors@.len() implies #[trigger] self.doors@[k].id
                        < self.next_door_id by {
                        let k0: int = if k < i { k } else { k + 1 };
                        assert(self.doors@[k] == prev[k0]);
                    }
                }
                true
            },
            None => {
                proof {
                    lemma_find_first_none(self.doors@, door_id_pred(door_id as int));
                    lemma_remove_where_no_match(self.doors@, door_id_pred(door_id as int));
                }
                false
            },
        }
    }

    /// Inserts a permission row as given; refused when the (door, user) pair
    /// already has one.
    pub fn create_door_permission(&mut self, p: DoorPermission) -> (res: Result<(), StoreError>)
        requires
            old(self).wf(),
        ensures
            final(self).wf(),
            final(self).users@ == old(self).users@,
            final(self).doors@ == old(self).doors@,
            final(self).codes@ == old(self).codes@,
            final(self).history@ == old(self).history@,
            spec_permission_for(
                old(self).permissions@,
                p.door_id as int,
                p.user_profile_id as int,
            ) is Some ==> res == Err::<(), StoreError>(StoreError::Conflict) && *final(self)
                == *old(self),
            spec_permission_for(
                old(self).permissions@,
                p.door_id as int,
                p.user_profile_id as int,
            ) is None ==> res == Ok::<(), StoreError>(()) && final(self).permissions@ == old(
                self,
            ).permissions@.push(p),
    {
        if self.find_permission(p.door_id, p.user_profile_id).is_some() {
            return Err(StoreError::Conflict);
        }
        proof {
            lemma_find_first_characterize(
                self.permissions@,
                perm_key_pred(p.door_id as int, p.user_profile_id as int),
            );
        }
        let ghost prev = self.permissions@;
        self.permissions.push(p);
        proof {
            assert forall|i: int, j: int|
                0 <= i < j < self.permissions@.len() implies !(#[trigger] self.permissions@[i].door_id
                == #[trigger] self.permissions@[j].door_id && self.permissions@[i].user_profile_id
                == self.permissions@[j].user_profile_id) by {
                if j == prev.len() {
                    assert(self.permissions@[i] == prev[i]);
                    assert(!perm_key_pred(p.door_id as int, p.user_profile_id as int)(prev[i]));
                } else {
                    assert(self.permissions@[i] == prev[i]);
                    assert(self.permissions@[j] == prev[j]);
                }
            }
        }
        Ok(())
    }

    /// Deletes the permission row for `(door_id, user_id)`; reports whether a
    /// row went away. Deleting an absent row is not an error.
    pub fn delete_user_access(&mut self, door_id: i32, user_id: i32) -> (removed: bool)
        requires
            old(self).wf(),
        ensures
            final(self).wf(),
            final(self).users@ == old(self).users@,
            final(self).doors@ == old(self).doors@,
            final(self).codes@ == old(self).codes@,
            final(self).history@ == old(self).history@,
            final(self).next_door_id == old(self).next_door_id,
            final(self).next_record_id == old(self).next_record_id,
            final(self).permissions@ == remove_where(
                old(self).permissions@,
                perm_key_pred(door_id as int, user_id as int),
            ),
            removed == (spec_permission_for(
                old(self).permissions@,
                door_id as int,
                user_id as int,
            ) is Some),
    {
        match self.find_permission_index(door_id, user_id) {
            Some(i) => {
                proof {
                    lemma_find_first_at(
                        self.permissions@,
                        perm_key_pred(door_id as int, user_id as int),
                        i as int,
                    );
                    assert forall|k: int|
                        0 <= k < self.permissions@.len() && k != i implies !perm_key_pred(
                        door_id as int,
                        user_id as int,
                    )(#[trigger] self.permissions@[k]) by {
                        if k > i {
                            assert(!(self.permissions@[i as int].door_id
                                == self.permissions@[k].door_id
                                && self.permissions@[i as int].user_profile_id
                                == self.permissions@[k].user_profile_id));
                        }
                    }
                    lemma_remove_where_single_match(
                        self.permissions@,
                        perm_key_pred(door_id as int, user_id as int),
                        i as int,
                    );
                    self.permissions@.remove_ensures(i as int);
                }
                let ghost prev = self.permissions@;
                self.permissions.remove(i);
                proof {
                    assert forall|a: int, b: int|
                        0 <= a < b < self.permissions@.len() implies !(
                        #[trigger] self.permissions@[a].door_id
                            == #[trigger] self.permissions@[b].door_id
                            && self.permissions@[a].user_profile_id
                            == self.permissions@[b].user_profile_id) by {
                        let a0: int = if a < i { a } else { a + 1 };
                        let b0: int = if b < i { b } else { b + 1 };
                        assert(self.permissions@[a] == prev[a0]);
                        assert(self.permissions@[b] == prev[b0]);
                    }
                }
                true
            },
            None => {
                proof {
                    lemma_find_first_none(
                        self.permissions@,
                        perm_key_pred(door_id as int, user_id as int),
                    );
                    lemma_remove_where_no_match(
                        self.permissions@,
                        perm_key_pred(door_id as int, user_id as int),
                    );
                }
                false
            },
        }
    }

    /// Index of the permission row for `(door_id, user_id)`, if present.
    fn find_permission_index(&self, door_id: i32, user_id: i32) -> (res: Option<usize>)
        ensures
            match res {
                Some(i) => i < self.permissions@.len() && perm_key_pred(
                    door_id as int,
                    user_id as int,
                )(self.permissions@[i as int]) && (forall|k: int| 0 <= k < i ==> !perm_key_pred(
                    door_id as int,
                    user_id as int,
                )(#[trigger] self.permissions@[k])),
                None => forall|k: int| 0 <= k < self.permissions@.len() ==> !perm_key_pred(
                    door_id as int,
                    user_id as int,
                )(#[trigger] self.permissions@[k]),
            },
    {
        let n = self.permissions.len();
        let mut i: usize = 0;
        while i < n
            invariant
                n == self.permissions@.len(),
                i <= n,
                forall|k: int| 0 <= k < i ==> !perm_key_pred(door_id as int, user_id as int)(
                    #[trigger] self.permissions@[k],
                ),
            decreases n - i,
        {
            if self.permissions[i].door_id == door_id && self.permissions[i].user_profile_id
                == user_id {
                return Some(i);
            }
            i += 1;
        }
        None
    }

    /// Issues a one-time code row; refused when the token is already taken.
    /// A freshly issued code is always unconsumed: the stored row carries
    /// `used == false` whatever the handed-in flag says, so the only flip of
    /// `used` a code ever sees is its redemption.
    pub fn create_door_code(&mut self, c: DoorCode) -> (res: Result<(), StoreError>)
        requires
            old(self).wf(),
        ensures
            final(self).wf(),
            final(self).users@ == old(self).users@,
            final(self).doors@ == old(self).doors@,
            final(self).permissions@ == old(self).permissions@,
            final(self).history@ == old(self).history@,
            spec_code_by_string(old(self).codes@, c.code@) is Some ==> res == Err::<
                (),
                StoreError,
            >(StoreError::Conflict) && *final(self) == *old(self),
            spec_code_by_string(old(self).codes@, c.code@) is None ==> res == Ok::<
                (),
                StoreError,
            >(()) && final(self).codes@ == old(self).codes@.push(
                DoorCode { used: false, ..c },
            ),
    {
        if self.get_door_code(&c.code).is_some() {
            return Err(StoreError::Conflict);
        }
        proof {
            lemma_find_first_characterize(self.codes@, code_string_pred(c.code@));
        }
        let ghost prev = self.codes@;
        let ghost cv = c.code@;
        self.codes.push(DoorCode { used: false, ..c });
        proof {
            assert forall|i: int, j: int|
                0 <= i < j < self.codes@.len() implies #[trigger] self.codes@[i].code@
                != #[trigger] self.codes@[j].code@ by {
                if j == prev.len() {
                    assert(self.codes@[i] == prev[i]);
                    assert(!code_string_pred(cv)(prev[i]));
                } else {
                    assert(self.codes@[i] == prev[i]);
                    assert(self.codes@[j] == prev[j]);
                }
            }
        }
        Ok(())
    }
}

} // verus!
