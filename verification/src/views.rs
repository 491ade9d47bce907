//! Joined read views over the relations: doors with their owner, and
//! permission rows joined with the user and door they speak of. A row whose
//! referenced user or door is gone is left out, as an inner join does.

use vstd::prelude::*;

use crate::models::{Door, DoorPermission, UserProfile};
use crate::store::{spec_door_by_id, spec_permission_for, spec_user_by_id, Store};

verus! {

/// The doors owned by `owner`, each paired with the owner's row.
pub open spec fn doors_owned_rows(
    doors: Seq<Door>,
    users: Seq<UserProfile>,
    owner: i32,
) -> Seq<(Door, UserProfile)>
    decreases doors.len(),
{
    if doors.len() == 0 {
        Seq::<(Door, UserProfile)>::empty()
    } else {
        let rest = doors_owned_rows(doors.drop_first(), users, owner);
        if doors[0].owner_id == Some(owner) {
            match spec_user_by_id(users, owner as int) {
                Some(u) => seq![(doors[0], u)].add(rest),
                None => rest,
            }
        } else {
            rest
        }
    }
}

/// The permission rows of one door, each joined with its user and the door.
pub open spec fn door_permission_rows(
    perms: Seq<DoorPermission>,
    users: Seq<UserProfile>,
    doors: Seq<Door>,
    door_id: int,
) -> Seq<(DoorPermission, UserProfile, Door)>
    decreases perms.len(),
{
    if perms.len() == 0 {
        Seq::<(DoorPermission, UserProfile, Door)>::empty()
    } else {
        let rest = door_permission_rows(perms.drop_first(), users, doors, door_id);
        if perms[0].door_id == door_id {
            match (spec_user_by_id(users, perms[0].user_profile_id as int), spec_door_by_id(
                doors,
                door_id,
            )) {
                (Some(u), Some(d)) => seq![(perms[0], u, d)].add(rest),
                _ => rest,
            }
        } else {
            rest
        }
    }
}

/// The permission row of one (door, user) pair joined with its user and
/// door, if all three rows exist.
pub open spec fn spec_user_door_permission_row(
    perms: Seq<DoorPermission>,
    users: Seq<UserProfile>,
    doors: Seq<Door>,
    door_id: int,
    user_id: int,
) -> Option<(DoorPermission, UserProfile, Door)> {
    match spec_permission_for(perms, door_id, user_id) {
        Some(p) => match (spec_user_by_id(users, p.user_profile_id as int), spec_door_by_id(
            doors,
            p.door_id as int,
        )) {
            (Some(u), Some(d)) => Some((p, u, d)),
            _ => None,
        },
        None => None,
    }
}

/// Extending the door table extends the owned-doors view by the new door's
/// contribution alone.
pub proof fn lemma_doors_owned_rows_push(
    doors: Seq<Door>,
    users: Seq<UserProfile>,
    owner: i32,
    d: Door,
)
    ensures
        doors_owned_rows(doors.push(d), users, owner) == (if d.owner_id == Some(owner) {
            match spec_user_by_id(users, owner as int) {
                Some(u) => doors_owned_rows(doors, users, owner).push((d, u)),
                None => doors_owned_rows(doors, users, owner),
            }
        } else {
            doors_owned_rows(doors, users, owner)
        }),
    decreases doors.len(),
{
    if doors.len() == 0 {
        assert(doors.push(d)[0] == d);
        assert(doors.push(d).drop_first() =~= Seq::<Door>::empty());
        assert(doors_owned_rows(Seq::<Door>::empty(), users, owner) =~= Seq::<(
            Door,
            UserProfile,
        )>::empty());
        if d.owner_id == Some(owner) {
            match spec_user_by_id(users, owner as int) {
                Some(u) => {
                    assert(doors_owned_rows(doors.push(d), users, owner) =~= doors_owned_rows(
                        doors,
                        users,
                        owner,
                    ).push((d, u)));
                },
                None => {},
            }
        }
    } else {
        lemma_doors_owned_rows_push(doors.drop_first(), users, owner, d);
        assert(doors.push(d)[0] == doors[0]);
        assert(doors.push(d).drop_first() =~= doors.drop_first().push(d));
        if doors[0].owner_id == Some(owner) {
            match spec_user_by_id(users, owner as int) {
                Some(u0) => {
                    if d.owner_id == Some(owner) {
                        assert(seq![(doors[0], u0)].add(
                            doors_owned_rows(doors.drop_first(), users, owner).push((d, u0)),
                        ) =~= doors_owned_rows(doors, users, owner).push((d, u0)));
                    }
                },
                None => {},
            }
        }
    }
}

/// Extending the permission table extends the per-door join by the new
/// row's contribution alone.
pub proof fn lemma_door_permission_rows_push(
    perms: Seq<DoorPermission>,
    users: Seq<UserProfile>,
    doors: Seq<Door>,
    door_id: int,
    p: DoorPermission,
)
    ensures
        door_permission_rows(perms.push(p), users, doors, door_id) == (if p.door_id == door_id {
            match (spec_user_by_id(users, p.user_profile_id as int), spec_door_by_id(
                doors,
                door_id,
            )) {
                (Some(u), Some(d)) => door_permission_rows(perms, users, doors, door_id).push(
                    (p, u, d),
                ),
                _ => door_permission_rows(perms, users, doors, door_id),
            }
        } else {
            door_permission_rows(perms, users, doors, door_id)
        }),
    decreases perms.len(),
{
    if perms.len() == 0 {
        assert(perms.push(p)[0] == p);
        assert(perms.push(p).drop_first() =~= Seq::<DoorPermission>::empty());
        assert(door_permission_rows(Seq::<DoorPermission>::empty(), users, doors, door_id)
            =~= Seq::<(DoorPermission, UserProfile, Door)>::empty());
        if p.door_id == door_id {
            match (spec_user_by_id(users, p.user_profile_id as int), spec_door_by_id(
                doors,
                door_id,
            )) {
                (Some(u), Some(d)) => {
                    assert(door_permission_rows(perms.push(p), users, doors, door_id)
                        =~= door_permission_rows(perms, users, doors, door_id).push((p, u, d)));
                },
                _ => {},
            }
        }
    } else {
        lemma_door_permission_rows_push(perms.drop_first(), users, doors, door_id, p);
        assert(perms.push(p)[0] == perms[0]);
        assert(perms.push(p).drop_first() =~= perms.drop_first().push(p));
        if perms[0].door_id == door_id {
            match (spec_user_by_id(users, perms[0].user_profile_id as int), spec_door_by_id(
                doors,
                door_id,
            )) {
                (Some(u0), Some(d0)) => {
                    if p.door_id == door_id {
                        match spec_user_by_id(users, p.user_profile_id as int) {
                            Some(u1) => {
                                assert(seq![(perms[0], u0, d0)].add(
                                    door_permission_rows(
                                        perms.drop_first(),
                                        users,
                                        doors,
                                        door_id,
                                    ).push((p, u1, d0)),
                                ) =~= door_permission_rows(perms, users, doors, door_id).push(
                                    (p, u1, d0),
                                ));
                            },
                            None => {},
                        }
                    }
                },
                _ => {},
            }
        }
    }
}

/// Without the door row, the per-door join is empty whatever the
/// permission table holds.
pub proof fn lemma_door_permission_rows_no_door(
    perms: Seq<DoorPermission>,
    users: Seq<UserProfile>,
    doors: Seq<Door>,
    door_id: int,
)
    requires
        spec_door_by_id(doors, door_id) is None,
    ensures
        door_permission_rows(perms, users, doors, door_id) == Seq::<(
            DoorPermission,
            UserProfile,
            Door,
        )>::empty(),
    decreases perms.len(),
{
    if perms.len() > 0 {
        lemma_door_permission_rows_no_door(perms.drop_first(), users, doors, door_id);
    }
}

impl Store {
    /// The doors owned by `user_id`, each paired with the owner's row.
    pub fn get_user_doors(&self, user_id: i32) -> (res: Vec<(Door, UserProfile)>)
        ensures
            res@ == doors_owned_rows(self.doors@, self.users@, user_id),
    {
        let mut out: Vec<(Door, UserProfile)> = Vec::new();
        let owner = match self.get_user(user_id) {
            Some(u) => Some(u.clone()),
            None => None,
        };
        let n = self.doors.len();
        let mut i: usize = 0;
        proof {
            assert(self.doors@.take(0) =~= Seq::<Door>::empty());
        }
        while i < n
            invariant
                n == self.doors@.len(),
                i <= n,
                out@ == doors_owned_rows(self.doors@.take(i as int), self.users@, user_id),
                match owner {
                    Some(u) => spec_user_by_id(self.users@, user_id as int) == Some(u),
                    None => spec_user_by_id(self.users@, user_id as int) is None,
                },
            decreases n - i,
        {
            proof {
                lemma_doors_owned_rows_push(
                    self.doors@.take(i as int),
                    self.users@,
                    user_id,
                    self.doors@[i as int],
                );
                assert(self.doors@.take(i as int + 1) =~= self.doors@.take(i as int).push(
                    self.doors@[i as int],
                ));
            }
            let is_owner = match self.doors[i].owner_id {
                Some(o) => o == user_id,
                None => false,
            };
            if is_owner {
                if let Some(u) = &owner {
                    out.push((self.doors[i].clone(), u.clone()));
                }
            }
            i += 1;
        }
        proof {
            assert(self.doors@.take(n as int) =~= self.doors@);
        }
        out
    }

    /// The permission rows of `door_id`, each joined with its user and the
    /// door itself.
    pub fn get_door_permission(&self, door_id: i32) -> (res: Vec<
        (DoorPermission, UserProfile, Door),
    >)
        ensures
            res@ == door_permission_rows(
                self.permissions@,
                self.users@,
                self.doors@,
                door_id as int,
            ),
    {
        let mut out: Vec<(DoorPermission, UserProfile, Door)> = Vec::new();
        let door = match self.get_door(door_id) {
            Some(d) => d.clone(),
            None => {
                proof {
                    lemma_door_permission_rows_no_door(
                        self.permissions@,
                        self.users@,
                        self.doors@,
                        door_id as int,
                    );
                }
                return out;
            },
        };
        let n = self.permissions.len();
        let mut i: usize = 0;
        proof {
            assert(self.permissions@.take(0) =~= Seq::<DoorPermission>::empty());
        }
        while i < n
            invariant
                n == self.permissions@.len(),
                i <= n,
                out@ == door_permission_rows(
                    self.permissions@.take(i as int),
                    self.users@,
                    self.doors@,
                    door_id as int,
                ),
                spec_door_by_id(self.doors@, door_id as int) == Some(door),
            decreases n - i,
        {
            proof {
                lemma_door_permission_rows_push(
                    self.permissions@.take(i as int),
                    self.users@,
                    self.doors@,
                    door_id as int,
                    self.permissions@[i as int],
                );
                assert(self.permissions@.take(i as int + 1) =~= self.permissions@.take(
                    i as int,
                ).push(self.permissions@[i as int]));
            }
            if self.permissions[i].door_id == door_id {
                let p = self.permissions[i];
                if let Some(u) = self.get_user(p.user_profile_id) {
                    out.push((p, u.clone(), door.clone()));
                }
            }
            i += 1;
        }
        proof {
            assert(self.permissions@.take(n as int) =~= self.permissions@);
        }
        out
    }

    /// The permission row of `(door_id, user_id)` joined with its user and
    /// door, if all three rows exist.
    pub fn get_user_door_permission(&self, door_id: i32, user_id: i32) -> (res: Option<
        (DoorPermission, UserProfile, Door),
    >)
        ensures
            res == spec_user_door_permission_row(
                self.permissions@,
                self.users@,
                self.doors@,
                door_id as int,
                user_id as int,
            ),
    {
        let p = match self.find_permission(door_id, user_id) {
            Some(p) => *p,
            None => {
                return None;
            },
        };
        let u = match self.get_user(p.user_profile_id) {
            Some(u) => u.clone(),
            None => {
                return None;
            },
        };
        let d = match self.get_door(p.door_id) {
            Some(d) => d.clone(),
            None => {
                return None;
            },
        };
        Some((p, u, d))
    }
}

} // verus!
