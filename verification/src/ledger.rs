//! Read views over the append-only access-history ledger, and the counting
//! law the engine's grants obey.

use vstd::prelude::*;

use crate::models::AccessHistory;
use crate::store::Store;

verus! {

/// Every ledger row for one door, in insertion order.
pub open spec fn records_for_door(h: Seq<AccessHistory>, door_id: int) -> Seq<AccessHistory>
    decreases h.len(),
{
    if h.len() == 0 {
        h
    } else {
        let rest = records_for_door(h.drop_first(), door_id);
        if h[0].door_id == door_id {
            seq![h[0]].add(rest)
        } else {
            rest
        }
    }
}

/// Every ledger row for one door made by one identity, in insertion order.
pub open spec fn records_for_door_user(
    h: Seq<AccessHistory>,
    door_id: int,
    user_id: int,
) -> Seq<AccessHistory>
    decreases h.len(),
{
    if h.len() == 0 {
        h
    } else {
        let rest = records_for_door_user(h.drop_first(), door_id, user_id);
        if h[0].door_id == door_id && h[0].user_profile_id == Some(user_id as i32) {
            seq![h[0]].add(rest)
        } else {
            rest
        }
    }
}

/// Law: appending a row for a door grows that door's view by exactly that
/// row and leaves every other door's view as it stands; since the engine
/// appends one row per grant and none on a denial, a door's count after K
/// grants is K.
pub proof fn lemma_records_for_door_push(h: Seq<AccessHistory>, r: AccessHistory, door_id: int)
    ensures
        records_for_door(h.push(r), door_id) == (if r.door_id == door_id {
            records_for_door(h, door_id).push(r)
        } else {
            records_for_door(h, door_id)
        }),
    decreases h.len(),
{
    if h.len() == 0 {
        assert(h.push(r)[0] == r);
        assert(h.push(r).drop_first() =~= Seq::<AccessHistory>::empty());
        assert(records_for_door(Seq::<AccessHistory>::empty(), door_id)
            =~= Seq::<AccessHistory>::empty());
        if r.door_id == door_id {
            assert(records_for_door(h.push(r), door_id) =~= records_for_door(h, door_id).push(r));
        }
    } else {
        lemma_records_for_door_push(h.drop_first(), r, door_id);
        assert(h.push(r)[0] == h[0]);
        assert(h.push(r).drop_first() =~= h.drop_first().push(r));
        if h[0].door_id == door_id {
            if r.door_id == door_id {
                assert(seq![h[0]].add(records_for_door(h.drop_first(), door_id).push(r))
                    =~= records_for_door(h, door_id).push(r));
            }
        }
    }
}

/// Law: the per-identity ledger view grows the same way, by exactly the
/// appended row when door and identity match, else not at all.
pub proof fn lemma_records_for_door_user_push(
    h: Seq<AccessHistory>,
    r: AccessHistory,
    door_id: int,
    user_id: int,
)
    ensures
        records_for_door_user(h.push(r), door_id, user_id) == (if r.door_id == door_id
            && r.user_profile_id == Some(user_id as i32) {
            records_for_door_user(h, door_id, user_id).push(r)
        } else {
            records_for_door_user(h, door_id, user_id)
        }),
    decreases h.len(),
{
    if h.len() == 0 {
        assert(h.push(r)[0] == r);
        assert(h.push(r).drop_first() =~= Seq::<AccessHistory>::empty());
        assert(records_for_door_user(Seq::<AccessHistory>::empty(), door_id, user_id)
            =~= Seq::<AccessHistory>::empty());
        if r.door_id == door_id && r.user_profile_id == Some(user_id as i32) {
            assert(records_for_door_user(h.push(r), door_id, user_id) =~= records_for_door_user(
                h,
                door_id,
                user_id,
            ).push(r));
        }
    } else {
        lemma_records_for_door_user_push(h.drop_first(), r, door_id, user_id);
        assert(h.push(r)[0] == h[0]);
        assert(h.push(r).drop_first() =~= h.drop_first().push(r));
        if h[0].door_id == door_id && h[0].user_profile_id == Some(user_id as i32) {
            if r.door_id == door_id && r.user_profile_id == Some(user_id as i32) {
                assert(seq![h[0]].add(
                    records_for_door_user(h.drop_first(), door_id, user_id).push(r),
                ) =~= records_for_door_user(h, door_id, user_id).push(r));
            }
        }
    }
}

impl Store {
    /// All ledger rows for one door, in insertion order.
    pub fn get_door_access_history(&self, door_id: i32) -> (res: Vec<AccessHistory>)
        ensures
            res@ == records_for_door(self.history@, door_id as int),
    {
        let n = self.history.len();
        let mut out: Vec<AccessHistory> = Vec::new();
        let mut i: usize = 0;
        proof {
            assert(self.history@.take(0) =~= Seq::<AccessHistory>::empty());
        }
        while i < n
            invariant
                n == self.history@.len(),
                i <= n,
                out@ == records_for_door(self.history@.take(i as int), door_id as int),
            decreases n - i,
        {
            proof {
                lemma_records_for_door_push(
                    self.history@.take(i as int),
                    self.history@[i as int],
                    door_id as int,
                );
                assert(self.history@.take(i as int + 1) =~= self.history@.take(i as int).push(
                    self.history@[i as int],
                ));
            }
            if self.history[i].door_id == door_id {
                out.push(self.history[i]);
            }
            i += 1;
        }
        proof {
            assert(self.history@.take(n as int) =~= self.history@);
        }
        out
    }

    /// All ledger rows for one door made by one identity, in insertion
    /// order.
    pub fn get_user_access_history(&self, door_id: i32, user_id: i32) -> (res: Vec<AccessHistory>)
        ensures
            res@ == records_for_door_user(self.history@, door_id as int, user_id as int),
    {
        let n = self.history.len();
        let mut out: Vec<AccessHistory> = Vec::new();
        let mut i: usize = 0;
        proof {
            assert(self.history@.take(0) =~= Seq::<AccessHistory>::empty());
        }
        while i < n
            invariant
                n == self.history@.len(),
                i <= n,
                out@ == records_for_door_user(
                    self.history@.take(i as int),
                    door_id as int,
                    user_id as int,
                ),
            decreases n - i,
        {
            proof {
                lemma_records_for_door_user_push(
                    self.history@.take(i as int),
                    self.history@[i as int],
                    door_id as int,
                    user_id as int,
                );
                assert(self.history@.take(i as int + 1) =~= self.history@.take(i as int).push(
                    self.history@[i as int],
                ));
            }
            let matches_user = match self.history[i].user_profile_id {
                Some(u) => u == user_id,
                None => false,
            };
            if self.history[i].door_id == door_id && matches_user {
                out.push(self.history[i]);
            }
            i += 1;
        }
        proof {
            assert(self.history@.take(n as int) =~= self.history@);
        }
        out
    }
}

} // verus!
