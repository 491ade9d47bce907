use door_access::engine::{DenyReason, OpenOutcome};
use door_access::models::{DoorCode, DoorPermission, UserProfile};
use door_access::store::Store;

fn user(id: i32) -> UserProfile {
    UserProfile {
        id,
        discord_id: format!("d-{}", id),
        username: format!("user-{}", id),
        avatar: None,
    }
}

fn code(token: &str, door_id: i32) -> DoorCode {
    DoorCode {
        code: token.to_string(),
        door_id,
        created_at: 100,
        expires_at: None,
        creator_id: 1,
        used: false,
    }
}

fn grant(store: &mut Store, door_id: i32, user_id: i32, can_edit: bool, can_open: bool) {
    let p = DoorPermission {
        door_id,
        user_profile_id: user_id,
        edit_permission: can_edit,
        open_permission: can_open,
    };
    store.create_door_permission(p).expect("fresh permission row");
}

#[test]
fn permission_with_open_right_grants_and_appends() {
    // Door 7 has Permission{identity=42, can_open=true}: opening grants and
    // the ledger gains one row for (7, 42); a repeat grants and appends again.
    let mut store = Store::new();
    grant(&mut store, 7, 42, false, true);
    let u = user(42);

    let first = store.open_door(7, Some(&u), None, 1000);
    assert_eq!(first, OpenOutcome::Opened);
    let history = store.get_door_access_history(7);
    assert_eq!(history.len(), 1);
    assert_eq!(history[0].door_id, 7);
    assert_eq!(history[0].user_profile_id, Some(42));
    assert_eq!(history[0].access_timestamp, 1000);

    let second = store.open_door(7, Some(&u), None, 2000);
    assert_eq!(second, OpenOutcome::Opened);
    assert_eq!(store.get_door_access_history(7).len(), 2);
}

#[test]
fn missing_permission_row_denies() {
    let mut store = Store::new();
    let u = user(42);
    let res = store.open_door(7, Some(&u), None, 1000);
    assert_eq!(res, OpenOutcome::Denied(DenyReason::PermissionAbsent));
    assert!(store.get_door_access_history(7).is_empty());
}

#[test]
fn open_right_false_denies_whatever_the_edit_right() {
    let mut store = Store::new();
    grant(&mut store, 7, 42, true, false);
    let u = user(42);
    let res = store.open_door(7, Some(&u), None, 1000);
    assert_eq!(res, OpenOutcome::Denied(DenyReason::PermissionAbsent));
    assert!(store.get_door_access_history(7).is_empty());
}

#[test]
fn open_right_true_grants_whatever_the_edit_right() {
    let mut store = Store::new();
    grant(&mut store, 7, 42, false, true);
    grant(&mut store, 8, 42, true, true);
    let u = user(42);
    assert_eq!(store.open_door(7, Some(&u), None, 1000), OpenOutcome::Opened);
    assert_eq!(store.open_door(8, Some(&u), None, 1001), OpenOutcome::Opened);
}

#[test]
fn code_redeems_once_then_denies() {
    // OneTimeCode "ABC" for door 7, unused: an anonymous open with it grants
    // and consumes it; an immediate retry is denied as invalid-or-consumed.
    let mut store = Store::new();
    store.create_door_code(code("ABC", 7)).expect("fresh code");
    let token = "ABC".to_string();

    let first = store.open_door(7, None, Some(&token), 1000);
    assert_eq!(first, OpenOutcome::Opened);
    assert!(store.get_door_code(&token).expect("code row").used);

    let retry = store.open_door(7, None, Some(&token), 1001);
    assert_eq!(retry, OpenOutcome::Denied(DenyReason::CodeInvalidOrConsumed));
}

#[test]
fn nothing_supplied_denies_as_unauthenticated() {
    let mut store = Store::new();
    let res = store.open_door(7, None, None, 1000);
    assert_eq!(res, OpenOutcome::Denied(DenyReason::NoCodeAndUnauthenticated));
    assert!(store.get_door_access_history(7).is_empty());
}

#[test]
fn code_for_another_door_falls_through() {
    // A code scoped to door 9 neither opens door 7 nor is consumed by the
    // attempt; without an identity the attempt is denied.
    let mut store = Store::new();
    store.create_door_code(code("ABC", 9)).expect("fresh code");
    let token = "ABC".to_string();
    let res = store.open_door(7, None, Some(&token), 1000);
    assert_eq!(res, OpenOutcome::Denied(DenyReason::CodeInvalidOrConsumed));
    assert!(!store.get_door_code(&token).expect("code row").used);
}

#[test]
fn invalid_code_falls_through_to_permission() {
    let mut store = Store::new();
    grant(&mut store, 7, 42, false, true);
    let u = user(42);
    let token = "NOPE".to_string();
    let res = store.open_door(7, Some(&u), Some(&token), 1000);
    assert_eq!(res, OpenOutcome::Opened);
    let history = store.get_door_access_history(7);
    assert_eq!(history.len(), 1);
    assert_eq!(history[0].user_profile_id, Some(42));
}

#[test]
fn anonymous_code_grant_is_recorded_without_identity() {
    let mut store = Store::new();
    store.create_door_code(code("ABC", 7)).expect("fresh code");
    let token = "ABC".to_string();
    assert_eq!(store.open_door(7, None, Some(&token), 1000), OpenOutcome::Opened);
    let history = store.get_door_access_history(7);
    assert_eq!(history.len(), 1);
    assert_eq!(history[0].user_profile_id, None);
}

#[test]
fn ledger_counts_grants_and_ignores_denials() {
    // Three grants on door 7, denials in between: the door's count is
    // exactly three, and door 8 keeps its own single row.
    let mut store = Store::new();
    grant(&mut store, 7, 42, false, true);
    grant(&mut store, 8, 42, false, true);
    let u = user(42);
    let stranger = user(99);

    assert_eq!(store.open_door(7, Some(&u), None, 1), OpenOutcome::Opened);
    assert_eq!(
        store.open_door(7, Some(&stranger), None, 2),
        OpenOutcome::Denied(DenyReason::PermissionAbsent)
    );
    assert_eq!(store.open_door(7, Some(&u), None, 3), OpenOutcome::Opened);
    assert_eq!(store.open_door(8, Some(&u), None, 4), OpenOutcome::Opened);
    assert_eq!(
        store.open_door(7, None, None, 5),
        OpenOutcome::Denied(DenyReason::NoCodeAndUnauthenticated)
    );
    assert_eq!(store.open_door(7, Some(&u), None, 6), OpenOutcome::Opened);

    assert_eq!(store.get_door_access_history(7).len(), 3);
    assert_eq!(store.get_door_access_history(8).len(), 1);
}

#[test]
fn user_scoped_history_filters_by_identity() {
    let mut store = Store::new();
    grant(&mut store, 7, 42, false, true);
    grant(&mut store, 7, 43, false, true);
    let a = user(42);
    let b = user(43);
    assert_eq!(store.open_door(7, Some(&a), None, 1), OpenOutcome::Opened);
    assert_eq!(store.open_door(7, Some(&b), None, 2), OpenOutcome::Opened);
    assert_eq!(store.open_door(7, Some(&a), None, 3), OpenOutcome::Opened);

    let mine = store.get_user_access_history(7, 42);
    assert_eq!(mine.len(), 2);
    assert!(mine.iter().all(|r| r.user_profile_id == Some(42) && r.door_id == 7));
    assert_eq!(store.get_user_access_history(7, 43).len(), 1);
    assert_eq!(store.get_user_access_history(7, 44).len(), 0);
}
