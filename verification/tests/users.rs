use admin_backend::clock::Timestamp;
use admin_backend::status::{Status, StoreError};
use admin_backend::users::{
    create_user, delete_user, list_users, update_user, UpsertUser, UserRole, UserStatus,
    UsersStore,
};

fn upsert(username: &str, full_name: Option<&str>) -> UpsertUser {
    UpsertUser {
        username: username.to_string(),
        email: format!("{}@example.com", username),
        full_name: full_name.map(|s| s.to_string()),
        role: UserRole::User,
        status: UserStatus::Active,
        permissions: vec!["read".to_string()],
    }
}

fn joined(secs: i64) -> Timestamp {
    Timestamp { secs, nanos: 5 }
}

#[test]
fn mock_users_are_admin_and_moderator() {
    let store = UsersStore::new_with_mock();
    let all = list_users(&store);
    assert_eq!(all.len(), 2);
    assert_eq!(all[0].username, "admin");
    assert_eq!(all[0].email, "admin@example.com");
    assert_eq!(all[0].full_name, "Главный администратор");
    assert_eq!(all[0].role, UserRole::Admin);
    assert_eq!(all[0].status, UserStatus::Active);
    assert_eq!(all[0].last_activity, "2 минуты назад");
    assert_eq!(all[0].posts, 156);
    assert_eq!(all[0].reputation, 9850);
    assert_eq!(all[0].permissions, vec!["all".to_string()]);
    assert_eq!(all[1].username, "moderator1");
    assert_eq!(all[1].full_name, "Модератор Иван");
    assert_eq!(all[1].role, UserRole::Moderator);
    assert_eq!(all[1].last_activity, "1 час назад");
    assert_eq!(all[1].posts, 89);
    assert_eq!(all[1].reputation, 4520);
    assert_eq!(
        all[1].permissions,
        vec!["moderate".to_string(), "edit".to_string(), "delete".to_string()]
    );
    assert_eq!(all[0].join_date, all[1].join_date);
    assert_ne!(all[0].id, all[1].id);
}

#[test]
fn seeded_users_get_distinct_identifiers() {
    let store = UsersStore::seeded(3, 3, joined(1));
    let all = list_users(&store);
    assert_eq!((all[0].id, all[1].id), (3, 4));
    let store = UsersStore::seeded(3, 1, joined(1));
    let all = list_users(&store);
    assert_eq!((all[0].id, all[1].id), (3, 1));
}

#[test]
fn create_user_defaults_full_name_to_username() {
    let mut store = UsersStore::new_with_mock();
    let (status, user) = create_user(&mut store, upsert("alice", None));
    assert_eq!(status, Status::Created);
    assert_eq!(user.full_name, "alice");
    assert_eq!(user.username, "alice");
    assert_eq!(user.email, "alice@example.com");
    assert_eq!(user.last_activity, "только что");
    assert_eq!(user.posts, 0);
    assert_eq!(user.reputation, 0);
    assert_eq!(user.permissions, vec!["read".to_string()]);
    let all = list_users(&store);
    assert_eq!(all.len(), 3);
    assert_eq!(all[0].id, user.id);
    assert_eq!(all[1].username, "admin");
}

#[test]
fn create_user_keeps_a_given_full_name() {
    let mut store = UsersStore::new();
    let user = store.create(9, joined(3), upsert("bob", Some("Bob Builder")));
    assert_eq!(user.full_name, "Bob Builder");
    assert_eq!(user.id, 9);
    assert_eq!(user.join_date, joined(3));
    let user = store.create(9, joined(3), upsert("eve", Some("")));
    assert_eq!(user.full_name, "");
    assert_eq!(user.id, 10);
}

#[test]
fn created_user_identifiers_are_pairwise_distinct() {
    let mut store = UsersStore::new_with_mock();
    let mut ids: Vec<u128> = list_users(&store).into_iter().map(|u| u.id).collect();
    for i in 0..20 {
        ids.push(create_user(&mut store, upsert(&format!("u{}", i), None)).1.id);
    }
    for i in 0..ids.len() {
        for j in 0..i {
            assert_ne!(ids[i], ids[j]);
        }
    }
}

#[test]
fn update_user_replaces_editable_fields() {
    let mut store = UsersStore::seeded(1, 2, joined(8));
    let mut change = upsert("root", Some("Root"));
    change.role = UserRole::Banned;
    change.status = UserStatus::Suspended;
    change.permissions = vec![];
    let user = update_user(&mut store, 1, change).unwrap();
    assert_eq!(user.id, 1);
    assert_eq!(user.username, "root");
    assert_eq!(user.email, "root@example.com");
    assert_eq!(user.full_name, "Root");
    assert_eq!(user.role, UserRole::Banned);
    assert_eq!(user.status, UserStatus::Suspended);
    assert!(user.permissions.is_empty());
    assert_eq!(user.join_date, joined(8));
    assert_eq!(user.last_activity, "2 минуты назад");
    assert_eq!(user.posts, 156);
    assert_eq!(user.reputation, 9850);
    let all = list_users(&store);
    assert_eq!(all[0].username, "root");
    assert_eq!(all[1].username, "moderator1");
}

#[test]
fn update_user_defaults_full_name_to_the_new_username() {
    let mut store = UsersStore::seeded(1, 2, joined(8));
    let user = update_user(&mut store, 2, upsert("renamed", None)).unwrap();
    assert_eq!(user.full_name, "renamed");
    assert_eq!(user.username, "renamed");
    assert_eq!(user.role, UserRole::User);
}

#[test]
fn update_unknown_user_is_not_found() {
    let mut store = UsersStore::seeded(1, 2, joined(8));
    assert_eq!(update_user(&mut store, 3, upsert("x", None)).err(), Some(StoreError::NotFound));
    let all = list_users(&store);
    assert_eq!(all.len(), 2);
    assert_eq!(all[0].username, "admin");
    assert_eq!(all[1].username, "moderator1");
}

#[test]
fn delete_user_removes_or_reports_not_found() {
    let mut store = UsersStore::seeded(1, 2, joined(8));
    assert_eq!(delete_user(&mut store, 3), Status::NotFound);
    assert_eq!(store.len(), 2);
    assert_eq!(delete_user(&mut store, 1), Status::NoContent);
    let all = list_users(&store);
    assert_eq!(all.len(), 1);
    assert_eq!(all[0].id, 2);
    assert_eq!(delete_user(&mut store, 1), Status::NotFound);
    assert_eq!(delete_user(&mut store, 2), Status::NoContent);
    assert_eq!(delete_user(&mut store, 2), Status::NotFound);
    assert!(list_users(&store).is_empty());
}

#[test]
fn list_users_is_a_copy() {
    let mut store = UsersStore::seeded(1, 2, joined(8));
    let mut copy = list_users(&store);
    copy[0].username = "changed".to_string();
    copy.clear();
    assert_eq!(list_users(&store)[0].username, "admin");
    delete_user(&mut store, 1);
    assert_eq!(list_users(&store).len(), 1);
}
