//! Plain records for the five relations the backend keeps: users, doors,
//! standing permissions, one-time codes, and the access-history ledger.
//! Timestamps are kept as seconds since the Unix epoch.

use vstd::prelude::*;

verus! {

/// Local user record; `discord_id` is the stable identity handed over by the
/// external login provider, unique across users.
#[derive(Debug, PartialEq, Eq)]
pub struct UserProfile {
    pub id: i32,
    pub discord_id: String,
    pub username: String,
    pub avatar: Option<String>,
}

impl Clone for UserProfile {
    fn clone(&self) -> (res: Self)
        ensures
            res == *self,
    {
        UserProfile {
            id: self.id,
            discord_id: self.discord_id.clone(),
            username: self.username.clone(),
            avatar: (match &self.avatar {
                Some(a) => Some(a.clone()),
                None => None,
            }),
        }
    }
}

/// A door, optionally described and optionally owned by a user.
#[derive(Debug, PartialEq, Eq)]
pub struct Door {
    pub id: i32,
    pub about: Option<String>,
    pub owner_id: Option<i32>,
}

impl Clone for Door {
    fn clone(&self) -> (res: Self)
        ensures
            res == *self,
    {
        Door {
            id: self.id,
            about: (match &self.about {
                Some(a) => Some(a.clone()),
                None => None,
            }),
            owner_id: self.owner_id,
        }
    }
}

/// A door as handed in by an administrative create request, before the store
/// has assigned it an id.
#[derive(Debug, PartialEq, Eq)]
pub struct InsertedDoor {
    pub about: Option<String>,
    pub owner_id: Option<i32>,
}

impl Clone for InsertedDoor {
    fn clone(&self) -> (res: Self)
        ensures
            res == *self,
    {
        InsertedDoor {
            about: (match &self.about {
                Some(a) => Some(a.clone()),
                None => None,
            }),
            owner_id: self.owner_id,
        }
    }
}

/// Standing grant for one (door, user) pair; at most one row per pair.
#[derive(Debug, Clone, Copy, PartialEq, Eq, Structural)]
pub struct DoorPermission {
    pub door_id: i32,
    pub user_profile_id: i32,
    pub edit_permission: bool,
    pub open_permission: bool,
}

/// A consumable token granting a single open of one door; `used` flips from
/// false to true exactly once, at redemption.
#[derive(Debug, PartialEq, Eq)]
pub struct DoorCode {
    pub code: String,
    pub door_id: i32,
    pub created_at: i64,
    pub expires_at: Option<i64>,
    pub creator_id: i32,
    pub used: bool,
}

impl Clone for DoorCode {
    fn clone(&self) -> (res: Self)
        ensures
            res == *self,
    {
        DoorCode {
            code: self.code.clone(),
            door_id: self.door_id,
            created_at: self.created_at,
            expires_at: self.expires_at,
            creator_id: self.creator_id,
            used: self.used,
        }
    }
}

/// One ledger entry: a successful open of `door_id`, by the given user or by
/// an anonymous code redeemer (`user_profile_id` absent).
#[derive(Debug, Clone, Copy, PartialEq, Eq, Structural)]
pub struct AccessHistory {
    pub id: i32,
    pub door_id: i32,
    pub user_profile_id: Option<i32>,
    pub access_timestamp: i64,
}

} // verus!
