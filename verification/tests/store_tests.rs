use door_access::models::{DoorCode, DoorPermission, InsertedDoor, UserProfile};
use door_access::store::{Store, StoreError};

fn user(id: i32, discord: &str, name: &str) -> UserProfile {
    UserProfile {
        id,
        discord_id: discord.to_string(),
        username: name.to_string(),
        avatar: None,
    }
}

#[test]
fn create_and_get_user() {
    let mut store = Store::new();
    assert!(store.create_user(user(1, "d-1", "alice")).is_ok());
    let found = store.get_user(1).expect("user 1 should exist");
    assert_eq!(found.username, "alice");
    assert!(store.get_user(2).is_none());
}

#[test]
fn duplicate_user_id_is_a_conflict() {
    let mut store = Store::new();
    assert!(store.create_user(user(1, "d-1", "alice")).is_ok());
    assert_eq!(
        store.create_user(user(1, "d-other", "bob")),
        Err(StoreError::Conflict)
    );
}

#[test]
fn duplicate_discord_id_is_a_conflict() {
    let mut store = Store::new();
    assert!(store.create_user(user(1, "d-1", "alice")).is_ok());
    assert_eq!(
        store.create_user(user(2, "d-1", "bob")),
        Err(StoreError::Conflict)
    );
    assert_eq!(store.get_users().len(), 1);
}

#[test]
fn create_door_assigns_distinct_ids() {
    let mut store = Store::new();
    let a = store.create_door(InsertedDoor {
        about: Some("front".to_string()),
        owner_id: None,
    });
    let b = store.create_door(InsertedDoor {
        about: None,
        owner_id: Some(1),
    });
    assert_ne!(a.id, b.id);
    assert_eq!(store.get_door(a.id).expect("door a").about.as_deref(), Some("front"));
    assert_eq!(store.get_door(b.id).expect("door b").owner_id, Some(1));
}

#[test]
fn delete_door_removes_the_row() {
    let mut store = Store::new();
    let a = store.create_door(InsertedDoor { about: None, owner_id: None });
    assert!(store.delete_door(a.id));
    assert!(store.get_door(a.id).is_none());
    // deleting again finds nothing and reports so, without an error
    assert!(!store.delete_door(a.id));
}

#[test]
fn permission_rows_are_unique_per_pair() {
    let mut store = Store::new();
    let p = DoorPermission {
        door_id: 7,
        user_profile_id: 42,
        edit_permission: false,
        open_permission: true,
    };
    assert!(store.create_door_permission(p).is_ok());
    let again = DoorPermission { open_permission: false, ..p };
    assert_eq!(store.create_door_permission(again), Err(StoreError::Conflict));
}

#[test]
fn delete_user_access_is_idempotent() {
    let mut store = Store::new();
    let p = DoorPermission {
        door_id: 7,
        user_profile_id: 42,
        edit_permission: true,
        open_permission: true,
    };
    assert!(store.create_door_permission(p).is_ok());
    assert!(store.delete_user_access(7, 42));
    assert!(!store.delete_user_access(7, 42));
    // a different pair is untouched by the misses above
    assert!(!store.delete_user_access(7, 43));
}

#[test]
fn door_codes_are_unique_by_token() {
    let mut store = Store::new();
    let c = DoorCode {
        code: "ABC".to_string(),
        door_id: 7,
        created_at: 100,
        expires_at: None,
        creator_id: 1,
        used: false,
    };
    assert!(store.create_door_code(c.clone()).is_ok());
    let clash = DoorCode { door_id: 8, ..c };
    assert_eq!(store.create_door_code(clash), Err(StoreError::Conflict));
    let found = store.get_door_code(&"ABC".to_string()).expect("code ABC");
    assert_eq!(found.door_id, 7);
    assert!(!found.used);
    assert!(store.get_door_code(&"XYZ".to_string()).is_none());
}

#[test]
fn issued_codes_start_unconsumed() {
    // a code cannot be born consumed: the stored row is unused whatever the
    // handed-in flag says
    let mut store = Store::new();
    let c = DoorCode {
        code: "PRE".to_string(),
        door_id: 7,
        created_at: 100,
        expires_at: None,
        creator_id: 1,
        used: true,
    };
    assert!(store.create_door_code(c).is_ok());
    assert!(!store.get_door_code(&"PRE".to_string()).expect("code PRE").used);
}
