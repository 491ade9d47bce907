//! Authentication over the session store: resolving a request's cookie
//! token to an identity, completing a login, and logging out.

use vstd::prelude::*;

use crate::identity::max_user_id;
use crate::models::UserProfile;
use crate::seq_util::lemma_find_first_push;
use crate::session::{
    remove_session, session_token_pred, spec_session_for, SessionEntry, Sessions,
};
use crate::store::{spec_user_by_discord, Store, StoreError};

verus! {

/// What a request's cookie resolves to. Routes that require a login turn
/// `Unauthenticated` into a redirect; routes with optional login proceed
/// anonymously. Both share this one resolution.
#[derive(Debug, PartialEq, Eq)]
pub enum AuthOutcome {
    Authenticated(UserProfile),
    Unauthenticated,
}

/// Resolves an optional session token to the identity stored under it. A
/// missing cookie and an unknown, expired or destroyed token all come out
/// as `Unauthenticated`; neither is an error.
pub fn authenticate(sessions: &Sessions, cookie_token: Option<u64>) -> (res: AuthOutcome)
    ensures
        match cookie_token {
            Some(t) => match spec_session_for(sessions.entries@, t) {
                Some(e) => res == AuthOutcome::Authenticated(e.user),
                None => res == AuthOutcome::Unauthenticated,
            },
            None => res == AuthOutcome::Unauthenticated,
        },
{
    match cookie_token {
        Some(t) => match sessions.load(t) {
            Some(u) => AuthOutcome::Authenticated(u.clone()),
            None => AuthOutcome::Unauthenticated,
        },
        None => AuthOutcome::Unauthenticated,
    }
}

/// Completes a login once the provider has handed over the external
/// identity and display attributes: resolves them to a local user, creating
/// one on first sight, and stores a session snapshot under `token`, a token
/// the caller has drawn from an unguessable source. Refused, with nothing
/// changed, only when the drawn token is already bound — the caller then
/// redraws. On success returns the user and the token the cookie carries.
pub fn login(
    store: &mut Store,
    sessions: &mut Sessions,
    discord_id: String,
    username: String,
    avatar: Option<String>,
    token: u64,
) -> (res: Result<(UserProfile, u64), StoreError>)
    requires
        old(store).wf(),
        forall|i: int|
            0 <= i < old(store).users@.len() ==> #[trigger] old(store).users@[i].id < i32::MAX,
        old(sessions).wf(),
    ensures
        final(store).wf(),
        final(sessions).wf(),
        final(store).doors@ == old(store).doors@,
        final(store).permissions@ == old(store).permissions@,
        final(store).codes@ == old(store).codes@,
        final(store).history@ == old(store).history@,
        final(store).next_door_id == old(store).next_door_id,
        final(store).next_record_id == old(store).next_record_id,
        spec_session_for(old(sessions).entries@, token) is Some ==> res == Err::<
            (UserProfile, u64),
            StoreError,
        >(StoreError::Conflict) && *final(store) == *old(store) && *final(sessions) == *old(
            sessions,
        ),
        spec_session_for(old(sessions).entries@, token) is None ==> (match res {
            Ok(r) => {
                &&& r.1 == token
                &&& (match spec_user_by_discord(old(store).users@, discord_id@) {
                    Some(u) => r.0 == u && *final(store) == *old(store),
                    None => {
                        &&& r.0.id as int == max_user_id(old(store).users@) + 1
                        &&& r.0.discord_id == discord_id
                        &&& r.0.username == username
                        &&& r.0.avatar == avatar
                        &&& final(store).users@ == old(store).users@.push(r.0)
                    },
                })
                &&& spec_user_by_discord(final(store).users@, discord_id@) == Some(r.0)
                &&& final(sessions).entries@ == old(sessions).entries@.push(
                    SessionEntry { token, user: r.0 },
                )
                &&& spec_session_for(final(sessions).entries@, token) == Some(
                    SessionEntry { token, user: r.0 },
                )
            },
            Err(_) => false,
        }),
{
    if sessions.load(token).is_some() {
        return Err(StoreError::Conflict);
    }
    let user = store.resolve_identity(discord_id, username, avatar);
    match sessions.create(&user, token) {
        Ok(()) => {
            proof {
                lemma_find_first_push(
                    old(sessions).entries@,
                    session_token_pred(token),
                    SessionEntry { token, user },
                );
            }
            Ok((user, token))
        },
        Err(e) => Err(e),
    }
}

/// Logs a session out by destroying it. A request without a cookie, or with
/// a token that addresses no session, changes nothing; logging out twice is
/// the same as logging out once.
pub fn logout(sessions: &mut Sessions, cookie_token: Option<u64>)
    requires
        old(sessions).wf(),
    ensures
        final(sessions).wf(),
        match cookie_token {
            Some(t) => final(sessions).entries@ == remove_session(old(sessions).entries@, t),
            None => *final(sessions) == *old(sessions),
        },
{
    if let Some(t) = cookie_token {
        sessions.destroy(t);
    }
}

} // verus!
