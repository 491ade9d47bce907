//! Opaque-token-keyed session store: create on login, load on each request,
//! destroy on logout. Tokens are drawn by the embedding layer from an
//! unguessable source and never reused; destroying is idempotent; an
//! unknown token is a normal empty result, never an error.

use vstd::prelude::*;

use crate::models::UserProfile;
use crate::seq_util::{
    find_first, lemma_find_first_at, lemma_find_first_characterize, lemma_find_first_none,
    lemma_remove_where_idempotent, lemma_remove_where_no_match, lemma_remove_where_single_match,
    remove_where,
};
use crate::store::StoreError;

verus! {

/// One stored session: the token it is addressed by and the identity
/// snapshot taken at login.
#[derive(Debug, PartialEq, Eq)]
pub struct SessionEntry {
    pub token: u64,
    pub user: UserProfile,
}

impl Clone for SessionEntry {
    fn clone(&self) -> (res: Self)
        ensures
            res == *self,
    {
        SessionEntry { token: self.token, user: self.user.clone() }
    }
}

/// Matches the session addressed by token `t`.
pub open spec fn session_token_pred(t: u64) -> spec_fn(SessionEntry) -> bool {
    |e: SessionEntry| e.token == t
}

/// The session addressed by `t`, if any.
pub open spec fn spec_session_for(entries: Seq<SessionEntry>, t: u64) -> Option<SessionEntry> {
    find_first(entries, session_token_pred(t))
}

/// `entries` without the session addressed by `t`.
pub open spec fn remove_session(entries: Seq<SessionEntry>, t: u64) -> Seq<SessionEntry> {
    remove_where(entries, session_token_pred(t))
}

/// The session store: entries keyed by distinct opaque tokens. The store
/// does not draw tokens itself — the value of a token carries no meaning
/// here — it only guarantees that a token in use is never bound twice.
pub struct Sessions {
    pub entries: Vec<SessionEntry>,
}

impl Sessions {
    /// Tokens are pairwise distinct, so every lookup is unambiguous.
    pub open spec fn wf(self) -> bool {
        forall|i: int, j: int|
            #![trigger self.entries@[i], self.entries@[j]]
            0 <= i < j < self.entries@.len() ==> self.entries@[i].token
                != self.entries@[j].token
    }

    /// An empty session store.
    pub fn new() -> (res: Sessions)
        ensures
            res.wf(),
            res.entries@ == Seq::<SessionEntry>::empty(),
    {
        Sessions { entries: Vec::new() }
    }

    /// Stores a snapshot of `user` under `token`, a token the caller has
    /// drawn from an unguessable source. Refused when the token is already
    /// bound, so a caller that redraws on a conflict never overwrites a
    /// session and the tokens stay distinct.
    pub fn create(&mut self, user: &UserProfile, token: u64) -> (res: Result<(), StoreError>)
        requires
            old(self).wf(),
        ensures
            final(self).wf(),
            spec_session_for(old(self).entries@, token) is Some ==> res == Err::<(), StoreError>(
                StoreError::Conflict,
            ) && *final(self) == *old(self),
            spec_session_for(old(self).entries@, token) is None ==> res == Ok::<(), StoreError>(())
                && final(self).entries@ == old(self).entries@.push(
                SessionEntry { token, user: *user },
            ),
    {
        match self.find_session_index(token) {
            Some(i) => {
                proof {
                    lemma_find_first_at(self.entries@, session_token_pred(token), i as int);
                }
                Err(StoreError::Conflict)
            },
            None => {
                proof {
                    lemma_find_first_none(self.entries@, session_token_pred(token));
                }
                let ghost prev = self.entries@;
                self.entries.push(SessionEntry { token, user: user.clone() });
                proof {
                    assert forall|i: int, j: int|
                        0 <= i < j < self.entries@.len() implies #[trigger] self.entries@[i].token
                        != #[trigger] self.entries@[j].token by {
                        if j == prev.len() {
                            assert(self.entries@[i] == prev[i]);
                            assert(!session_token_pred(token)(prev[i]));
                        } else {
                            assert(self.entries@[i] == prev[i]);
                            assert(self.entries@[j] == prev[j]);
                        }
                    }
                }
                Ok(())
            },
        }
    }

    /// The identity stored under `token`, or nothing for an unknown token.
    pub fn load(&self, token: u64) -> (res: Option<&UserProfile>)
        ensures
            res is Some <==> spec_session_for(self.entries@, token) is Some,
            res matches Some(u) ==> spec_session_for(self.entries@, token) matches Some(e) && e.user
                == *u,
    {
        let n = self.entries.len();
        let mut i: usize = 0;
        while i < n
            invariant
                n == self.entries@.len(),
                i <= n,
                forall|k: int| 0 <= k < i ==> !session_token_pred(token)(
                    #[trigger] self.entries@[k],
                ),
            decreases n - i,
        {
            if self.entries[i].token == token {
                proof {
                    lemma_find_first_at(self.entries@, session_token_pred(token), i as int);
                }
                return Some(&self.entries[i].user);
            }
            i += 1;
        }
        proof {
            lemma_find_first_none(self.entries@, session_token_pred(token));
        }
        None
    }

    /// Index of the session addressed by `token`, if present.
    fn find_session_index(&self, token: u64) -> (res: Option<usize>)
        ensures
            match res {
                Some(i) => i < self.entries@.len() && session_token_pred(token)(
                    self.entries@[i as int],
                ) && (forall|k: int| 0 <= k < i ==> !session_token_pred(token)(
                    #[trigger] self.entries@[k],
                )),
                None => forall|k: int| 0 <= k < self.entries@.len() ==> !session_token_pred(token)(
                    #[trigger] self.entries@[k],
                ),
            },
    {
        let n = self.entries.len();
        let mut i: usize = 0;
        while i < n
            invariant
                n == self.entries@.len(),
                i <= n,
                forall|k: int| 0 <= k < i ==> !session_token_pred(token)(
                    #[trigger] self.entries@[k],
                ),
            decreases n - i,
        {
            if self.entries[i].token == token {
                return Some(i);
            }
            i += 1;
        }
        None
    }

    /// Drops the session addressed by `token`. Destroying an unknown or
    /// already-destroyed token leaves the store as it is and is not an error.
    pub fn destroy(&mut self, token: u64)
        requires
            old(self).wf(),
        ensures
            final(self).wf(),
            final(self).entries@ == remove_session(old(self).entries@, token),
    {
        match self.find_session_index(token) {
            Some(i) => {
                proof {
                    assert forall|k: int|
                        0 <= k < self.entries@.len() && k != i implies !session_token_pred(token)(
                        #[trigger] self.entries@[k],
                    ) by {
                        if k > i {
                            assert(self.entries@[i as int].token != self.entries@[k].token);
                        }
                    }
                    lemma_remove_where_single_match(
                        self.entries@,
                        session_token_pred(token),
                        i as int,
                    );
                    self.entries@.remove_ensures(i as int);
                }
                let ghost prev = self.entries@;
                self.entries.remove(i);
                proof {
                    assert forall|a: int, b: int|
                        0 <= a < b < self.entries@.len() implies #[trigger] self.entries@[a].token
                        != #[trigger] self.entries@[b].token by {
                        let a0: int = if a < i { a } else { a + 1 };
                        let b0: int = if b < i { b } else { b + 1 };
                        assert(self.entries@[a] == prev[a0]);
                        assert(self.entries@[b] == prev[b0]);
                    }
                }
            },
            None => {
                proof {
                    lemma_remove_where_no_match(self.entries@, session_token_pred(token));
                }
            },
        }
    }
}

/// Law: destroying a token twice is the same as destroying it once; the
/// second destroy finds nothing and leaves the store as it stands.
pub proof fn lemma_destroy_idempotent(entries: Seq<SessionEntry>, t: u64)
    ensures
        remove_session(remove_session(entries, t), t) == remove_session(entries, t),
{
    lemma_remove_where_idempotent(entries, session_token_pred(t));
}

/// Law: destroying a token that addresses no session leaves the store
/// exactly as it stands.
pub proof fn lemma_destroy_absent(entries: Seq<SessionEntry>, t: u64)
    requires
        spec_session_for(entries, t) is None,
    ensures
        remove_session(entries, t) == entries,
{
    lemma_find_first_characterize(entries, session_token_pred(t));
    lemma_remove_where_no_match(entries, session_token_pred(t));
}

} // verus!
