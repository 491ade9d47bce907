//! Identity resolution: mapping an external-provider identity to a local
//! user row, creating one on first sight.

use vstd::prelude::*;

use crate::models::UserProfile;
use crate::seq_util::{lemma_find_first_characterize, lemma_find_first_push};
use crate::store::{spec_user_by_discord, user_discord_pred, Store};

verus! {

/// Largest local id in use, or 0 when there is none; fresh ids are assigned
/// one past it.
pub open spec fn max_user_id(users: Seq<UserProfile>) -> int
    decreases users.len(),
{
    if users.len() == 0 {
        0
    } else {
        let m = max_user_id(users.drop_first());
        if users[0].id > m {
            users[0].id as int
        } else {
            m
        }
    }
}

/// `max_user_id` dominates every id and is either 0 or one of the ids.
pub proof fn lemma_max_user_id_bounds(users: Seq<UserProfile>)
    ensures
        max_user_id(users) >= 0,
        forall|i: int| 0 <= i < users.len() ==> #[trigger] users[i].id <= max_user_id(users),
        max_user_id(users) == 0 || exists|i: int|
            0 <= i < users.len() && #[trigger] users[i].id == max_user_id(users),
    decreases users.len(),
{
    if users.len() > 0 {
        lemma_max_user_id_bounds(users.drop_first());
        assert forall|i: int|
            0 <= i < users.len() implies #[trigger] users[i].id <= max_user_id(users) by {
            if i > 0 {
                assert(users.drop_first()[i - 1] == users[i]);
            }
        }
        let rest = users.drop_first();
        if max_user_id(users) != 0 {
            if users[0].id > max_user_id(rest) {
                assert(users[0].id == max_user_id(users));
            } else {
                let j = choose|j: int|
                    0 <= j < rest.len() && #[trigger] rest[j].id == max_user_id(rest);
                assert(users[j + 1].id == max_user_id(users));
            }
        }
    }
}

/// Appending a user raises the maximum exactly when its id is larger.
pub proof fn lemma_max_user_id_push(users: Seq<UserProfile>, u: UserProfile)
    ensures
        max_user_id(users.push(u)) == (if u.id > max_user_id(users) {
            u.id as int
        } else {
            max_user_id(users)
        }),
    decreases users.len(),
{
    if users.len() == 0 {
        assert(users.push(u)[0] == u);
        assert(users.push(u).drop_first() =~= Seq::<UserProfile>::empty());
        assert(max_user_id(Seq::<UserProfile>::empty()) == 0);
    } else {
        lemma_max_user_id_push(users.drop_first(), u);
        assert(users.push(u)[0] == users[0]);
        assert(users.push(u).drop_first() =~= users.drop_first().push(u));
    }
}

/// Law: a first login inserts exactly one row, and that row is what every
/// later lookup of the same external identity resolves to — so later logins
/// reuse its local id instead of creating another row.
pub proof fn lemma_first_login_row_is_reused(users: Seq<UserProfile>, u: UserProfile)
    requires
        spec_user_by_discord(users, u.discord_id@) is None,
    ensures
        users.push(u).len() == users.len() + 1,
        spec_user_by_discord(users.push(u), u.discord_id@) == Some(u),
{
    lemma_find_first_push(users, user_discord_pred(u.discord_id@), u);
}

impl Store {
    /// Returns the user carrying external identity `discord_id`, inserting a
    /// fresh row with the given display attributes when none exists yet. The
    /// display attributes of an existing row are left as they are.
    pub fn resolve_identity(
        &mut self,
        discord_id: String,
        username: String,
        avatar: Option<String>,
    ) -> (res: UserProfile)
        requires
            old(self).wf(),
            forall|i: int|
                0 <= i < old(self).users@.len() ==> #[trigger] old(self).users@[i].id < i32::MAX,
        ensures
            final(self).wf(),
            final(self).doors@ == old(self).doors@,
            final(self).permissions@ == old(self).permissions@,
            final(self).codes@ == old(self).codes@,
            final(self).history@ == old(self).history@,
            final(self).next_door_id == old(self).next_door_id,
            final(self).next_record_id == old(self).next_record_id,
            match spec_user_by_discord(old(self).users@, discord_id@) {
                Some(u) => res == u && *final(self) == *old(self),
                None => {
                    &&& res.id as int == max_user_id(old(self).users@) + 1
                    &&& res.discord_id == discord_id
                    &&& res.username == username
                    &&& res.avatar == avatar
                    &&& final(self).users@ == old(self).users@.push(res)
                },
            },
            spec_user_by_discord(final(self).users@, discord_id@) == Some(res),
    {
        let found = self.find_user_by_discord(&discord_id);
        if let Some(u) = found {
            return u.clone();
        }
        proof {
            lemma_find_first_characterize(self.users@, user_discord_pred(discord_id@));
            lemma_max_user_id_bounds(self.users@);
            if max_user_id(self.users@) != 0 {
                let i = choose|i: int|
                    0 <= i < self.users@.len() && #[trigger] self.users@[i].id == max_user_id(
                        self.users@,
                    );
                assert(self.users@[i].id < i32::MAX);
            }
        }
        let n = self.users.len();
        let mut m: i32 = 0;
        let mut i: usize = 0;
        proof {
            assert(self.users@.take(0) =~= Seq::<UserProfile>::empty());
            assert(max_user_id(Seq::<UserProfile>::empty()) == 0);
        }
        while i < n
            invariant
                n == self.users@.len(),
                i <= n,
                m as int == max_user_id(self.users@.take(i as int)),
            decreases n - i,
        {
            proof {
                lemma_max_user_id_push(self.users@.take(i as int), self.users@[i as int]);
                assert(self.users@.take(i as int + 1) =~= self.users@.take(i as int).push(
                    self.users@[i as int],
                ));
            }
            if self.users[i].id > m {
                m = self.users[i].id;
            }
            i += 1;
        }
        proof {
            assert(self.users@.take(n as int) =~= self.users@);
        }
        let new_user = UserProfile { id: m + 1, discord_id, username, avatar };
        let res = new_user.clone();
        let ghost prev = self.users@;
        self.users.push(new_user);
        proof {
            assert forall|a: int, b: int|
                0 <= a < b < self.users@.len() implies #[trigger] self.users@[a].id
                != #[trigger] self.users@[b].id && self.users@[a].discord_id@
                != self.users@[b].discord_id@ by {
                if b == prev.len() {
                    assert(self.users@[a] == prev[a]);
                    assert(prev[a].id <= max_user_id(prev));
                    assert(!user_discord_pred(discord_id@)(prev[a]));
                } else {
                    assert(self.users@[a] == prev[a]);
                    assert(self.users@[b] == prev[b]);
                }
            }
            lemma_find_first_push(prev, user_discord_pred(discord_id@), res);
            assert(self.users@ =~= prev.push(res));
        }
        res
    }
}

} // verus!
