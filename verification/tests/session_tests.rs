use door_access::auth::{authenticate, login, logout, AuthOutcome};
use door_access::models::UserProfile;
use door_access::session::Sessions;
use door_access::store::{Store, StoreError};

fn user(id: i32, discord: &str) -> UserProfile {
    UserProfile {
        id,
        discord_id: discord.to_string(),
        username: format!("user-{}", id),
        avatar: None,
    }
}

#[test]
fn created_session_loads_the_stored_identity() {
    let mut sessions = Sessions::new();
    let u = user(1, "d-1");
    sessions.create(&u, 9001).expect("fresh token should bind");
    let loaded = sessions.load(9001).expect("fresh session should load");
    assert_eq!(loaded.id, 1);
    assert_eq!(loaded.discord_id, "d-1");
}

#[test]
fn unknown_token_loads_nothing() {
    let sessions = Sessions::new();
    assert!(sessions.load(12345).is_none());
}

#[test]
fn binding_a_bound_token_is_a_conflict() {
    // a drawn token that collides is refused; the stored session is kept
    let mut sessions = Sessions::new();
    sessions.create(&user(1, "d-1"), 7).expect("fresh token should bind");
    assert_eq!(sessions.create(&user(2, "d-2"), 7), Err(StoreError::Conflict));
    assert_eq!(sessions.load(7).expect("first session kept").id, 1);
}

#[test]
fn distinct_tokens_hold_distinct_sessions() {
    let mut sessions = Sessions::new();
    sessions.create(&user(1, "d-1"), 10).expect("fresh token should bind");
    sessions.create(&user(2, "d-2"), 20).expect("fresh token should bind");
    assert_eq!(sessions.load(10).expect("first session").id, 1);
    assert_eq!(sessions.load(20).expect("second session").id, 2);
}

#[test]
fn destroy_is_idempotent() {
    // Destroying an already-destroyed token, or one that never existed,
    // is not an error and changes nothing.
    let mut sessions = Sessions::new();
    sessions.create(&user(1, "d-1"), 5).expect("fresh token should bind");
    sessions.destroy(5);
    assert!(sessions.load(5).is_none());
    sessions.destroy(5);
    assert!(sessions.load(5).is_none());
    sessions.destroy(99999);
}

#[test]
fn destroy_leaves_other_sessions_alone() {
    let mut sessions = Sessions::new();
    sessions.create(&user(1, "d-1"), 5).expect("fresh token should bind");
    sessions.create(&user(2, "d-2"), 6).expect("fresh token should bind");
    sessions.destroy(5);
    assert!(sessions.load(5).is_none());
    assert_eq!(sessions.load(6).expect("second session").id, 2);
}

#[test]
fn destroyed_token_can_be_drawn_again() {
    let mut sessions = Sessions::new();
    sessions.create(&user(1, "d-1"), 5).expect("fresh token should bind");
    sessions.destroy(5);
    sessions.create(&user(2, "d-2"), 5).expect("freed token should bind");
    assert_eq!(sessions.load(5).expect("rebound session").id, 2);
}

#[test]
fn authenticate_resolves_cookie_to_identity() {
    let mut sessions = Sessions::new();
    sessions.create(&user(5, "d-5"), 77).expect("fresh token should bind");
    match authenticate(&sessions, Some(77)) {
        AuthOutcome::Authenticated(u) => assert_eq!(u.id, 5),
        AuthOutcome::Unauthenticated => panic!("a live session should authenticate"),
    }
}

#[test]
fn authenticate_without_cookie_is_unauthenticated() {
    let sessions = Sessions::new();
    assert_eq!(authenticate(&sessions, None), AuthOutcome::Unauthenticated);
}

#[test]
fn authenticate_with_stale_token_is_unauthenticated() {
    let mut sessions = Sessions::new();
    sessions.create(&user(5, "d-5"), 77).expect("fresh token should bind");
    sessions.destroy(77);
    assert_eq!(authenticate(&sessions, Some(77)), AuthOutcome::Unauthenticated);
}

#[test]
fn first_login_creates_exactly_one_row() {
    let mut store = Store::new();
    let mut sessions = Sessions::new();
    let (u, token) = login(
        &mut store,
        &mut sessions,
        "d-77".to_string(),
        "carol".to_string(),
        Some("avatar-ref".to_string()),
        4242,
    )
    .expect("fresh token should log in");
    assert_eq!(token, 4242);
    assert_eq!(store.get_users().len(), 1);
    assert_eq!(u.username, "carol");
    assert_eq!(u.avatar.as_deref(), Some("avatar-ref"));
    assert_eq!(sessions.load(token).expect("login session").id, u.id);
}

#[test]
fn later_logins_reuse_the_same_local_id() {
    let mut store = Store::new();
    let mut sessions = Sessions::new();
    let (first, _) = login(
        &mut store,
        &mut sessions,
        "d-77".to_string(),
        "carol".to_string(),
        None,
        1,
    )
    .expect("fresh token should log in");
    let (second, _) = login(
        &mut store,
        &mut sessions,
        "d-77".to_string(),
        "carol-renamed".to_string(),
        None,
        2,
    )
    .expect("fresh token should log in");
    assert_eq!(first.id, second.id);
    assert_eq!(store.get_users().len(), 1);
    // display attributes of an existing row are kept, not refreshed
    assert_eq!(second.username, "carol");
}

#[test]
fn logins_for_different_identities_get_different_ids() {
    let mut store = Store::new();
    let mut sessions = Sessions::new();
    let (a, _) = login(&mut store, &mut sessions, "d-1".to_string(), "a".to_string(), None, 1)
        .expect("fresh token should log in");
    let (b, _) = login(&mut store, &mut sessions, "d-2".to_string(), "b".to_string(), None, 2)
        .expect("fresh token should log in");
    assert_ne!(a.id, b.id);
    assert_eq!(store.get_users().len(), 2);
}

#[test]
fn login_with_a_bound_token_is_refused_and_changes_nothing() {
    let mut store = Store::new();
    let mut sessions = Sessions::new();
    login(&mut store, &mut sessions, "d-1".to_string(), "a".to_string(), None, 1)
        .expect("fresh token should log in");
    let res = login(&mut store, &mut sessions, "d-2".to_string(), "b".to_string(), None, 1);
    assert_eq!(res, Err(StoreError::Conflict));
    assert_eq!(store.get_users().len(), 1);
    assert_eq!(sessions.load(1).expect("first session kept").discord_id, "d-1");
}

#[test]
fn logout_destroys_the_session() {
    let mut store = Store::new();
    let mut sessions = Sessions::new();
    let (_, token) = login(&mut store, &mut sessions, "d-1".to_string(), "a".to_string(), None, 11)
        .expect("fresh token should log in");
    logout(&mut sessions, Some(token));
    assert!(sessions.load(token).is_none());
    // logging out again, or without a cookie, changes nothing
    logout(&mut sessions, Some(token));
    logout(&mut sessions, None);
    assert!(sessions.load(token).is_none());
}
