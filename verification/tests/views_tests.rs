use door_access::models::{DoorPermission, InsertedDoor, UserProfile};
use door_access::store::Store;

fn user(id: i32, name: &str) -> UserProfile {
    UserProfile {
        id,
        discord_id: format!("d-{}", id),
        username: name.to_string(),
        avatar: None,
    }
}

#[test]
fn user_doors_pairs_each_owned_door_with_its_owner() {
    let mut store = Store::new();
    store.create_user(user(1, "alice")).expect("fresh user");
    store.create_user(user(2, "bob")).expect("fresh user");
    let a = store.create_door(InsertedDoor { about: Some("front".to_string()), owner_id: Some(1) });
    let _b = store.create_door(InsertedDoor { about: None, owner_id: Some(2) });
    let c = store.create_door(InsertedDoor { about: None, owner_id: Some(1) });
    let _d = store.create_door(InsertedDoor { about: None, owner_id: None });

    let rows = store.get_user_doors(1);
    assert_eq!(rows.len(), 2);
    assert_eq!(rows[0].0.id, a.id);
    assert_eq!(rows[1].0.id, c.id);
    assert!(rows.iter().all(|(_, owner)| owner.username == "alice"));
}

#[test]
fn user_doors_without_the_owner_row_is_empty() {
    // an inner join: doors pointing at an absent user produce no rows
    let mut store = Store::new();
    let _ = store.create_door(InsertedDoor { about: None, owner_id: Some(9) });
    assert!(store.get_user_doors(9).is_empty());
}

#[test]
fn door_permission_rows_join_user_and_door() {
    let mut store = Store::new();
    store.create_user(user(1, "alice")).expect("fresh user");
    store.create_user(user(2, "bob")).expect("fresh user");
    let door = store.create_door(InsertedDoor { about: Some("lab".to_string()), owner_id: None });
    for (uid, open) in [(1, true), (2, false)] {
        store
            .create_door_permission(DoorPermission {
                door_id: door.id,
                user_profile_id: uid,
                edit_permission: false,
                open_permission: open,
            })
            .expect("fresh permission row");
    }
    // a row whose user is gone stays out of the join
    store
        .create_door_permission(DoorPermission {
            door_id: door.id,
            user_profile_id: 99,
            edit_permission: false,
            open_permission: true,
        })
        .expect("fresh permission row");

    let rows = store.get_door_permission(door.id);
    assert_eq!(rows.len(), 2);
    assert_eq!(rows[0].1.username, "alice");
    assert!(rows[0].0.open_permission);
    assert_eq!(rows[1].1.username, "bob");
    assert!(!rows[1].0.open_permission);
    assert!(rows.iter().all(|(_, _, d)| d.id == door.id));
}

#[test]
fn door_permission_rows_for_an_absent_door_are_empty() {
    let mut store = Store::new();
    store.create_user(user(1, "alice")).expect("fresh user");
    store
        .create_door_permission(DoorPermission {
            door_id: 5,
            user_profile_id: 1,
            edit_permission: false,
            open_permission: true,
        })
        .expect("fresh permission row");
    assert!(store.get_door_permission(5).is_empty());
}

#[test]
fn single_pair_lookup_joins_all_three_rows() {
    let mut store = Store::new();
    store.create_user(user(1, "alice")).expect("fresh user");
    let door = store.create_door(InsertedDoor { about: None, owner_id: None });
    store
        .create_door_permission(DoorPermission {
            door_id: door.id,
            user_profile_id: 1,
            edit_permission: true,
            open_permission: false,
        })
        .expect("fresh permission row");

    let (p, u, d) = store
        .get_user_door_permission(door.id, 1)
        .expect("joined row should exist");
    assert!(p.edit_permission);
    assert!(!p.open_permission);
    assert_eq!(u.username, "alice");
    assert_eq!(d.id, door.id);

    assert!(store.get_user_door_permission(door.id, 2).is_none());
    assert!(store.get_user_door_permission(door.id + 1, 1).is_none());
}
