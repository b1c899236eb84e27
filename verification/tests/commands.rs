use ugo_ii_bot::command::BalanceInfo;
use ugo_ii_bot::command::Command;
use ugo_ii_bot::command::format_balances;
use ugo_ii_bot::command::register_commands;
use ugo_ii_bot::command::run_command;
use ugo_ii_bot::error::InnerError;
use ugo_ii_bot::storage::DiscordLink;
use ugo_ii_bot::storage::Storage;
use ugo_ii_bot::ugocoin::Ugocoin;
use ugo_ii_bot::ugocoin::UgocoinAccount;
use ugo_ii_bot::user::User;

fn office() -> Storage {
    let mut db = Storage::new();
    db.users.push(User { id: 1, display_name: "ann".to_string(), streak: 3 });
    db.users.push(User { id: 2, display_name: "bob".to_string(), streak: 0 });
    db.users_discord_ids.push(DiscordLink { discord_id: 501, user_id: 1 });
    db.ugocoin_accounts.push(
        UgocoinAccount { id: 1, user_id: None, balance: Ugocoin::from_ugocents(1_000_000) },
    );
    db.ugocoin_accounts.push(
        UgocoinAccount { id: 2, user_id: Some(2), balance: Ugocoin::from_ugocents(50) },
    );
    db.ugocoin_accounts.push(
        UgocoinAccount { id: 3, user_id: Some(1), balance: Ugocoin::from_ugocents(150_000) },
    );
    db
}

#[test]
fn commands_have_names() {
    assert_eq!(Command::Test.name(), "test");
    assert_eq!(Command::Balance.name(), "balances");
    assert_eq!(Command::from_name("test"), Some(Command::Test));
    assert_eq!(Command::from_name("balances"), Some(Command::Balance));
    assert_eq!(Command::from_name("balance"), None);
    assert_eq!(Command::from_name("Test"), None);
    assert_eq!(Command::from_name(""), None);
    assert_eq!(register_commands(), vec![Command::Test, Command::Balance]);
    assert_eq!(Command::Test.description(), "A test command for the UGO bot");
}

#[test]
fn the_test_command_greets_its_user() {
    let db = office();
    assert_eq!(run_command(&db, "test", 501).unwrap(), "Hello ann");
    let err = run_command(&db, "test", 777).unwrap_err();
    assert!(matches!(err.error, InnerError::UserNotFound));
    assert_eq!(err.ctx, "Fetching command user");
}

#[test]
fn an_unknown_command_is_an_error() {
    let db = office();
    let err = run_command(&db, "dance", 501).unwrap_err();
    assert!(matches!(&err.error, InnerError::CommandNotFound(name) if name == "dance"));
}

#[test]
fn balances_come_in_columns_with_the_richest_first() {
    let db = office();
    assert_eq!(
        run_command(&db, "balances", 777).unwrap(),
        "Current UGOcoin balances:\n\n```\
UGOcoin Central Bank | U$10,000.00 | (scrum streak 0)\n\
ann                  | U$1,500.00  | (scrum streak 3)\n\
bob                  | 50 U\u{a2}       | (scrum streak 0)\n\
```"
    );
}

#[test]
fn balances_need_an_account_for_everybody() {
    let mut db = office();
    db.users.push(User { id: 3, display_name: "cy".to_string(), streak: 0 });
    let err = run_command(&db, "balances", 501).unwrap_err();
    assert!(matches!(err.error, InnerError::DatabaseError(_)));
    let mut db = office();
    db.ugocoin_accounts.remove(0);
    let err = run_command(&db, "balances", 501).unwrap_err();
    assert!(matches!(err.error, InnerError::DatabaseError(_)));
}

fn info(name: &str, cents: i64, streak: i64) -> BalanceInfo {
    BalanceInfo { name: name.to_string(), balance: Ugocoin::from_ugocents(cents), streak }
}

#[test]
fn of_equal_balances_the_later_comes_first() {
    let text = format_balances(vec![
        info("a", 100, 1),
        info("b", 300, 2),
        info("c", 100, 3),
        info("d", 200, 4),
        info("e", 300, 5),
    ]);
    assert_eq!(
        text,
        "Current UGOcoin balances:\n\n```\
e | U$3.00 | (scrum streak 5)\n\
b | U$3.00 | (scrum streak 2)\n\
d | U$2.00 | (scrum streak 4)\n\
c | U$1.00 | (scrum streak 3)\n\
a | U$1.00 | (scrum streak 1)\n\
```"
    );
}

#[test]
fn columns_are_as_wide_as_the_bytes_of_their_longest_entry() {
    // A name with letters of two bytes makes its column wider than it needs.
    let text = format_balances(vec![info("zo\u{eb}", 0, 0), info("al", -5, -2)]);
    assert_eq!(
        text,
        "Current UGOcoin balances:\n\n```\
zo\u{eb}  | U$0.00 | (scrum streak 0)\n\
al   | -5 U\u{a2}  | (scrum streak -2)\n\
```"
    );
}

#[test]
fn an_empty_table_has_no_lines() {
    assert_eq!(format_balances(vec![]), "Current UGOcoin balances:\n\n``````");
}
