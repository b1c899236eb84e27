use ugo_ii_bot::error::InnerError;
use ugo_ii_bot::storage::DiscordLink;
use ugo_ii_bot::storage::Storage;
use ugo_ii_bot::user::User;
use ugo_ii_bot::user::clear_streak;
use ugo_ii_bot::user::get_all_users;
use ugo_ii_bot::user::get_user;
use ugo_ii_bot::user::increment_streak;

fn people() -> Storage {
    let mut db = Storage::new();
    db.users.push(User { id: 1, display_name: "ann".to_string(), streak: 4 });
    db.users.push(User { id: 2, display_name: "bob".to_string(), streak: 0 });
    db.users.push(User { id: 3, display_name: "cy".to_string(), streak: i64::MAX });
    db.users_discord_ids.push(DiscordLink { discord_id: 501, user_id: 1 });
    db.users_discord_ids.push(DiscordLink { discord_id: 502, user_id: 2 });
    db.users_discord_ids.push(DiscordLink { discord_id: 511, user_id: 1 });
    db.users_discord_ids.push(DiscordLink { discord_id: 599, user_id: 42 });
    db
}

fn streaks(db: &Storage) -> Vec<i64> {
    db.users.iter().map(|u| u.streak).collect()
}

#[test]
fn a_user_is_found_by_any_chat_identity() {
    let db = people();
    let ann = get_user(&db, 501).unwrap();
    assert_eq!((ann.id, ann.display_name.as_str(), ann.streak), (1, "ann", 4));
    assert_eq!(get_user(&db, 511).unwrap().id, 1);
    assert_eq!(get_user(&db, 502).unwrap().display_name, "bob");
}

#[test]
fn an_unknown_chat_identity_is_no_user() {
    let db = people();
    let err = get_user(&db, 500).unwrap_err();
    assert!(matches!(err.error, InnerError::UserNotFound));
    // A link to a user that is not there finds nobody either.
    let err = get_user(&db, 599).unwrap_err();
    assert!(matches!(err.error, InnerError::UserNotFound));
    assert_eq!(err.to_string(), " failed! (User not found.)");
}

#[test]
fn all_users_come_in_the_order_of_the_table() {
    let db = people();
    let all = get_all_users(&db).unwrap();
    let seen: Vec<(i64, &str, i64)> =
        all.iter().map(|u| (u.id, u.display_name.as_str(), u.streak)).collect();
    assert_eq!(seen, vec![(1, "ann", 4), (2, "bob", 0), (3, "cy", i64::MAX)]);
    assert!(get_all_users(&Storage::new()).unwrap().is_empty());
}

#[test]
fn a_streak_grows_by_one() {
    let mut db = people();
    increment_streak(&mut db, 1).unwrap();
    increment_streak(&mut db, 2).unwrap();
    increment_streak(&mut db, 2).unwrap();
    assert_eq!(streaks(&db), vec![5, 2, i64::MAX]);
    assert_eq!(db.users[0].display_name, "ann");
}

#[test]
fn a_streak_that_is_full_cannot_grow() {
    let mut db = people();
    let err = increment_streak(&mut db, 3).unwrap_err();
    assert!(matches!(err.error, InnerError::DatabaseError(_)));
    assert_eq!(streaks(&db), vec![4, 0, i64::MAX]);
}

#[test]
fn a_streak_is_put_back_to_zero() {
    let mut db = people();
    clear_streak(&mut db, 1).unwrap();
    clear_streak(&mut db, 3).unwrap();
    assert_eq!(streaks(&db), vec![0, 0, 0]);
    assert_eq!(db.users[2].display_name, "cy");
}

#[test]
fn the_streak_of_nobody_changes_nothing() {
    let mut db = people();
    increment_streak(&mut db, 9).unwrap();
    clear_streak(&mut db, 9).unwrap();
    assert_eq!(streaks(&db), vec![4, 0, i64::MAX]);
}
