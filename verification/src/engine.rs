//! The door-open decision procedure: one-time-code redemption first, then
//! the standing-permission lookup, with the outcome recorded in the ledger
//! on every grant and the store left untouched on every denial.

use vstd::prelude::*;

use crate::models::{AccessHistory, DoorCode, DoorPermission, UserProfile};
use crate::seq_util::{find_first, lemma_find_first_at, lemma_find_first_none};
use crate::store::{spec_permission_for, Store};

verus! {

/// Why an open attempt was denied. The category never reveals whether the
/// door exists or what other users may do.
#[derive(Debug, Clone, Copy, PartialEq, Eq, Structural)]
pub enum DenyReason {
    /// Neither a code nor an authenticated identity came with the request.
    NoCodeAndUnauthenticated,
    /// A code came with the request but matched no unused code for this
    /// door, and no identity could fall back to a permission.
    CodeInvalidOrConsumed,
    /// The identity holds no permission row for the door, or holds one
    /// without the open right.
    PermissionAbsent,
}

/// Outcome of one open attempt.
#[derive(Debug, Clone, Copy, PartialEq, Eq, Structural)]
pub enum OpenOutcome {
    Opened,
    Denied(DenyReason),
}

/// Matches an unused code row carrying token `c` for door `door_id`.
pub open spec fn redeemable_pred(c: Seq<char>, door_id: int) -> spec_fn(DoorCode) -> bool {
    |e: DoorCode| e.code@ == c && e.door_id == door_id && !e.used
}

/// Whether some unused code row carries token `c` for door `door_id`.
pub open spec fn has_redeemable_code(codes: Seq<DoorCode>, c: Seq<char>, door_id: int) -> bool {
    find_first(codes, redeemable_pred(c, door_id)) is Some
}

/// The same code row, consumed.
pub open spec fn with_used(e: DoorCode) -> DoorCode {
    DoorCode { used: true, ..e }
}

/// The code table after redeeming token `c` at door `door_id`: the first
/// redeemable row is consumed, everything else is kept as it stands.
pub open spec fn mark_code_used(codes: Seq<DoorCode>, c: Seq<char>, door_id: int) -> Seq<
    DoorCode,
>
    decreases codes.len(),
{
    if codes.len() == 0 {
        codes
    } else if redeemable_pred(c, door_id)(codes[0]) {
        seq![with_used(codes[0])].add(codes.drop_first())
    } else {
        seq![codes[0]].add(mark_code_used(codes.drop_first(), c, door_id))
    }
}

/// Whether the permission table lets `user_id` open `door_id`: a row for the
/// pair must exist and carry the open right. The edit right plays no part.
pub open spec fn permission_allows_open(
    perms: Seq<DoorPermission>,
    door_id: int,
    user_id: int,
) -> bool {
    match spec_permission_for(perms, door_id, user_id) {
        Some(p) => p.open_permission,
        None => false,
    }
}

/// How the standing-permission fallback decides for one identity.
pub open spec fn permission_outcome(
    perms: Seq<DoorPermission>,
    door_id: int,
    user_id: int,
) -> OpenOutcome {
    if permission_allows_open(perms, door_id, user_id) {
        OpenOutcome::Opened
    } else {
        OpenOutcome::Denied(DenyReason::PermissionAbsent)
    }
}

/// The open decision, in precedence order: a supplied code is tried first;
/// an authenticated identity then falls back to its standing permission; an
/// anonymous request with a bad code, or with none, is denied outright.
pub open spec fn decide_open(
    codes: Seq<DoorCode>,
    perms: Seq<DoorPermission>,
    door_id: int,
    user_id: Option<int>,
    code: Option<Seq<char>>,
) -> OpenOutcome {
    match code {
        Some(c) => if has_redeemable_code(codes, c, door_id) {
            OpenOutcome::Opened
        } else {
            match user_id {
                Some(u) => permission_outcome(perms, door_id, u),
                None => OpenOutcome::Denied(DenyReason::CodeInvalidOrConsumed),
            }
        },
        None => match user_id {
            Some(u) => permission_outcome(perms, door_id, u),
            None => OpenOutcome::Denied(DenyReason::NoCodeAndUnauthenticated),
        },
    }
}

/// The identity id an open attempt acts for, if any.
pub open spec fn opt_user_id(user: Option<&UserProfile>) -> Option<int> {
    match user {
        Some(u) => Some(u.id as int),
        None => None,
    }
}

/// The same, kept at the stored width for the ledger row.
pub open spec fn opt_user_id_i32(user: Option<&UserProfile>) -> Option<i32> {
    match user {
        Some(u) => Some(u.id),
        None => None,
    }
}

/// The supplied code token, viewed.
pub open spec fn opt_code_view(code: Option<&String>) -> Option<Seq<char>> {
    match code {
        Some(c) => Some(c@),
        None => None,
    }
}

/// When the first redeemable row sits at index `i`, redemption is exactly an
/// update of that row to its consumed form.
pub proof fn lemma_mark_code_used_at(codes: Seq<DoorCode>, c: Seq<char>, door_id: int, i: int)
    requires
        0 <= i < codes.len(),
        redeemable_pred(c, door_id)(codes[i]),
        forall|k: int| 0 <= k < i ==> !redeemable_pred(c, door_id)(#[trigger] codes[k]),
    ensures
        mark_code_used(codes, c, door_id) == codes.update(i, with_used(codes[i])),
    decreases i,
{
    if i == 0 {
        assert(seq![with_used(codes[0])].add(codes.drop_first()) =~= codes.update(
            0,
            with_used(codes[0]),
        ));
    } else {
        assert(!redeemable_pred(c, door_id)(codes[0]));
        assert forall|k: int|
            0 <= k < i - 1 implies !redeemable_pred(c, door_id)(
            #[trigger] codes.drop_first()[k],
        ) by {
            assert(codes.drop_first()[k] == codes[k + 1]);
        }
        assert(codes.drop_first()[i - 1] == codes[i]);
        lemma_mark_code_used_at(codes.drop_first(), c, door_id, i - 1);
        assert(seq![codes[0]].add(codes.drop_first().update(i - 1, with_used(codes[i])))
            =~= codes.update(i, with_used(codes[i])));
    }
}

/// Law: a one-time code redeems at most once. In a table whose tokens are
/// distinct, redeeming a token leaves no redeemable row carrying it, at this
/// door or at any other; a second redemption necessarily fails.
pub proof fn lemma_code_redeems_at_most_once(
    codes: Seq<DoorCode>,
    c: Seq<char>,
    door_id: int,
    other_door: int,
)
    requires
        forall|i: int, j: int|
            #![trigger codes[i], codes[j]]
            0 <= i < j < codes.len() ==> codes[i].code@ != codes[j].code@,
        has_redeemable_code(codes, c, door_id),
    ensures
        !has_redeemable_code(mark_code_used(codes, c, door_id), c, other_door),
{
    crate::seq_util::lemma_find_first_characterize(codes, redeemable_pred(c, door_id));
    let x = find_first(codes, redeemable_pred(c, door_id)).unwrap();
    let i = choose|i: int| 0 <= i < codes.len() && codes[i] == x;
    assert(redeemable_pred(c, door_id)(codes[i]));
    assert forall|k: int| 0 <= k < i implies !redeemable_pred(c, door_id)(
        #[trigger] codes[k],
    ) by {
        if codes[k].code@ == c {
            assert(codes[k].code@ != codes[i].code@);
        }
    }
    lemma_mark_code_used_at(codes, c, door_id, i);
    let marked = mark_code_used(codes, c, door_id);
    assert forall|k: int| 0 <= k < marked.len() implies !redeemable_pred(c, other_door)(
        #[trigger] marked[k],
    ) by {
        if k == i {
            assert(marked[k] == with_used(codes[i]));
        } else {
            assert(marked[k] == codes[k]);
            if codes[k].code@ == c {
                if k < i {
                    assert(codes[k].code@ != codes[i].code@);
                } else {
                    assert(codes[i].code@ != codes[k].code@);
                }
            }
        }
    }
    lemma_find_first_none(marked, redeemable_pred(c, other_door));
}

/// Law: the open decision never reads the edit right. Two permission tables
/// that agree on keys and open rights, row for row, decide every open
/// attempt alike, whatever their edit rights.
pub proof fn lemma_decision_ignores_edit(
    perms1: Seq<DoorPermission>,
    perms2: Seq<DoorPermission>,
    door_id: int,
    user_id: int,
)
    requires
        perms1.len() == perms2.len(),
        forall|i: int|
            #![trigger perms1[i], perms2[i]]
            0 <= i < perms1.len() ==> perms1[i].door_id == perms2[i].door_id
                && perms1[i].user_profile_id == perms2[i].user_profile_id
                && perms1[i].open_permission == perms2[i].open_permission,
    ensures
        permission_allows_open(perms1, door_id, user_id) == permission_allows_open(
            perms2,
            door_id,
            user_id,
        ),
    decreases perms1.len(),
{
    if perms1.len() > 0 {
        if crate::store::perm_key_pred(door_id, user_id)(perms1[0]) {
            assert(crate::store::perm_key_pred(door_id, user_id)(perms2[0]));
        } else {
            assert(!crate::store::perm_key_pred(door_id, user_id)(perms2[0]));
            assert forall|i: int|
                0 <= i < perms1.drop_first().len() implies #[trigger] perms1.drop_first()[i].door_id
                == perms2.drop_first()[i].door_id && perms1.drop_first()[i].user_profile_id
                == perms2.drop_first()[i].user_profile_id
                && perms1.drop_first()[i].open_permission
                == perms2.drop_first()[i].open_permission by {
                assert(perms1.drop_first()[i] == perms1[i + 1]);
                assert(perms2.drop_first()[i] == perms2[i + 1]);
            }
            lemma_decision_ignores_edit(
                perms1.drop_first(),
                perms2.drop_first(),
                door_id,
                user_id,
            );
        }
    }
}

impl Store {
    /// Index of the first unused code row carrying token `c` for `door_id`.
    fn find_redeemable_index(&self, c: &String, door_id: i32) -> (res: Option<usize>)
        ensures
            match res {
                Some(i) => i < self.codes@.len() && redeemable_pred(c@, door_id as int)(
                    self.codes@[i as int],
                ) && (forall|k: int| 0 <= k < i ==> !redeemable_pred(c@, door_id as int)(
                    #[trigger] self.codes@[k],
                )),
                None => forall|k: int| 0 <= k < self.codes@.len() ==> !redeemable_pred(
                    c@,
                    door_id as int,
                )(#[trigger] self.codes@[k]),
            },
    {
        let n = self.codes.len();
        let mut i: usize = 0;
        while i < n
            invariant
                n == self.codes@.len(),
                i <= n,
                forall|k: int| 0 <= k < i ==> !redeemable_pred(c@, door_id as int)(
                    #[trigger] self.codes@[k],
                ),
            decreases n - i,
        {
            if self.codes[i].code == *c && self.codes[i].door_id == door_id && !self.codes[i].used {
                return Some(i);
            }
            i += 1;
        }
        None
    }

    /// Appends a ledger row for a grant at `door_id` and hands back the row.
    fn append_record(&mut self, door_id: i32, user_id: Option<i32>, now: i64) -> (rec:
        AccessHistory)
        requires
            old(self).wf(),
            old(self).next_record_id < i32::MAX,
        ensures
            final(self).wf(),
            rec == (AccessHistory {
                id: old(self).next_record_id,
                door_id,
                user_profile_id: user_id,
                access_timestamp: now,
            }),
            final(self).history@ == old(self).history@.push(rec),
            final(self).next_record_id == old(self).next_record_id + 1,
            final(self).users@ == old(self).users@,
            final(self).doors@ == old(self).doors@,
            final(self).permissions@ == old(self).permissions@,
            final(self).codes@ == old(self).codes@,
            final(self).next_door_id == old(self).next_door_id,
    {
        let rec = AccessHistory {
            id: self.next_record_id,
            door_id,
            user_profile_id: user_id,
            access_timestamp: now,
        };
        let ghost prev = self.history@;
        self.history.push(rec);
        self.next_record_id = self.next_record_id + 1;
        proof {
            assert forall|i: int, j: int|
                0 <= i < j < self.history@.len() implies #[trigger] self.history@[i].id
                != #[trigger] self.history@[j].id by {
                if j == prev.len() {
                    assert(self.history@[i] == prev[i]);
                } else {
                    assert(self.history@[i] == prev[i]);
                    assert(self.history@[j] == prev[j]);
                }
            }
            assert forall|k: int|
                0 <= k < self.history@.len() implies #[trigger] self.history@[k].id
                < self.next_record_id by {
                if k < prev.len() {
                    assert(self.history@[k] == prev[k]);
                }
            }
        }
        rec
    }

    /// Decides one open attempt for `door_id` and applies its effects: a
    /// redeemed code is consumed, every grant appends one ledger row stamped
    /// `now`, and a denial leaves the store exactly as it stands.
    pub fn open_door(
        &mut self,
        door_id: i32,
        user: Option<&UserProfile>,
        code: Option<&String>,
        now: i64,
    ) -> (res: OpenOutcome)
        requires
            old(self).wf(),
            old(self).next_record_id < i32::MAX,
        ensures
            final(self).wf(),
            res == decide_open(
                old(self).codes@,
                old(self).permissions@,
                door_id as int,
                opt_user_id(user),
                opt_code_view(code),
            ),
            final(self).users@ == old(self).users@,
            final(self).doors@ == old(self).doors@,
            final(self).permissions@ == old(self).permissions@,
            final(self).next_door_id == old(self).next_door_id,
            code matches Some(c) ==> (if has_redeemable_code(old(self).codes@, c@, door_id as int) {
                final(self).codes@ == mark_code_used(old(self).codes@, c@, door_id as int)
            } else {
                final(self).codes@ == old(self).codes@
            }),
            code is None ==> final(self).codes@ == old(self).codes@,
            res == OpenOutcome::Opened ==> final(self).history@ == old(self).history@.push(
                AccessHistory {
                    id: old(self).next_record_id,
                    door_id,
                    user_profile_id: opt_user_id_i32(user),
                    access_timestamp: now,
                },
            ) && final(self).next_record_id == old(self).next_record_id + 1,
            res is Denied ==> *final(self) == *old(self),
    {
        if let Some(c) = code {
            match self.find_redeemable_index(c, door_id) {
                Some(i) => {
                    proof {
                        lemma_find_first_at(
                            self.codes@,
                            redeemable_pred(c@, door_id as int),
                            i as int,
                        );
                        lemma_mark_code_used_at(self.codes@, c@, door_id as int, i as int);
                    }
                    let ghost prev = self.codes@;
                    self.codes[i].used = true;
                    proof {
                        assert(self.codes@ == prev.update(
                            i as int,
                            with_used(prev[i as int]),
                        ));
                        assert forall|a: int, b: int|
                            0 <= a < b < self.codes@.len() implies #[trigger] self.codes@[a].code@
                            != #[trigger] self.codes@[b].code@ by {
                            assert(self.codes@[a].code@ == prev[a].code@);
                            assert(self.codes@[b].code@ == prev[b].code@);
                        }
                    }
                    let user_id = match user {
                        Some(u) => Some(u.id),
                        None => None,
                    };
                    self.append_record(door_id, user_id, now);
                    return OpenOutcome::Opened;
                },
                None => {
                    proof {
                        lemma_find_first_none(self.codes@, redeemable_pred(c@, door_id as int));
                    }
                },
            }
        }
        if let Some(u) = user {
            let allows = match self.find_permission(door_id, u.id) {
                Some(p) => p.open_permission,
                None => false,
            };
            if allows {
                self.append_record(door_id, Some(u.id), now);
                return OpenOutcome::Opened;
            } else {
                return OpenOutcome::Denied(DenyReason::PermissionAbsent);
            }
        }
        if code.is_some() {
            OpenOutcome::Denied(DenyReason::CodeInvalidOrConsumed)
        } else {
            OpenOutcome::Denied(DenyReason::NoCodeAndUnauthenticated)
        }
    }
}

} // verus!
