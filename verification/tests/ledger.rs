use ugo_ii_bot::datetime::LocalDateTime;
use ugo_ii_bot::datetime::ScrumDate;
use ugo_ii_bot::error::InnerError;
use ugo_ii_bot::storage::Storage;
use ugo_ii_bot::ugocoin::Ugocoin;
use ugo_ii_bot::ugocoin::UgocoinAccount;
use ugo_ii_bot::ugocoin::account::credit_account;
use ugo_ii_bot::ugocoin::account::debit_account;
use ugo_ii_bot::ugocoin::account::get_central_bank_account;
use ugo_ii_bot::ugocoin::account::get_user_account;
use ugo_ii_bot::ugocoin::account::transfer;
use ugo_ii_bot::ugocoin::tx::UgocoinTransaction;
use ugo_ii_bot::ugocoin::tx::create_log;
use ugo_ii_bot::user::User;

fn moment(timestamp: i64) -> LocalDateTime {
    LocalDateTime { date: ScrumDate::new(2022, 11, 27).unwrap(), hour: 9, timestamp }
}

fn account(id: i64, user_id: Option<i64>, cents: i64) -> UgocoinAccount {
    UgocoinAccount { id, user_id, balance: Ugocoin::from_ugocents(cents) }
}

fn bank() -> Storage {
    let mut db = Storage::new();
    db.ugocoin_accounts.push(account(1, None, 100_000));
    db.ugocoin_accounts.push(account(2, Some(10), 500));
    db.ugocoin_accounts.push(account(3, Some(11), 0));
    db
}

fn balances(db: &Storage) -> Vec<i64> {
    db.ugocoin_accounts.iter().map(|a| a.balance.as_ugocents()).collect()
}

#[test]
fn coins_are_a_hundred_cents() {
    assert_eq!(Ugocoin::from_ugocoin(1).as_ugocents(), 100);
    assert_eq!(Ugocoin::from_ugocoin(0).as_ugocents(), 0);
    assert_eq!(Ugocoin::from_ugocoin(-3).as_ugocents(), -300);
    assert_eq!(Ugocoin::from_ugocents(250).as_ugocents(), 250);
    assert_eq!(Ugocoin::from_ugocoin(2), Ugocoin::from_ugocents(200));
    assert!(Ugocoin::from_ugocents(199) < Ugocoin::from_ugocoin(2));
}

#[test]
fn amounts_show_as_coins_and_cents() {
    assert_eq!(Ugocoin::from_ugocents(0).to_string(), "U$0.00");
    assert_eq!(Ugocoin::from_ugocents(100).to_string(), "U$1.00");
    assert_eq!(Ugocoin::from_ugocents(105).to_string(), "U$1.05");
    assert_eq!(Ugocoin::from_ugocents(199).to_string(), "U$1.99");
    assert_eq!(Ugocoin::from_ugocents(99_999).to_string(), "U$999.99");
    assert_eq!(Ugocoin::from_ugocents(100_000).to_string(), "U$1,000.00");
    assert_eq!(Ugocoin::from_ugocents(123_456_789).to_string(), "U$1,234,567.89");
    assert_eq!(Ugocoin::from_ugocents(100_000_000_000).to_string(), "U$1,000,000,000.00");
    assert_eq!(
        Ugocoin::from_ugocents(i64::MAX).to_string(),
        "U$92,233,720,368,547,758.07"
    );
}

#[test]
fn amounts_below_a_coin_show_as_cents() {
    assert_eq!(Ugocoin::from_ugocents(1).to_string(), "1 U\u{a2}");
    assert_eq!(Ugocoin::from_ugocents(50).to_string(), "50 U\u{a2}");
    assert_eq!(Ugocoin::from_ugocents(99).to_string(), "99 U\u{a2}");
    assert_eq!(Ugocoin::from_ugocents(-50).to_string(), "-50 U\u{a2}");
}

#[test]
fn a_negative_amount_shows_only_its_odd_cents() {
    assert_eq!(Ugocoin::from_ugocents(-250).to_string(), "-50 U\u{a2}");
    assert_eq!(Ugocoin::from_ugocents(-200).to_string(), "0 U\u{a2}");
    assert_eq!(Ugocoin::from_ugocents(i64::MIN).to_string(), "-8 U\u{a2}");
}

#[test]
fn transfer_moves_the_amount_and_logs_it() {
    let mut db = bank();
    let from = db.ugocoin_accounts[1];
    let to = db.ugocoin_accounts[2];
    let memo = "lunch".to_string();
    transfer(&mut db, &from, &to, Ugocoin::from_ugocents(200), &memo, &moment(1_669_500_000)).unwrap();
    assert_eq!(balances(&db), vec![100_000, 300, 200]);
    assert_eq!(
        db.ugocoin_tx_logs,
        vec![UgocoinTransaction {
            id: 1,
            tx_time: 1_669_500_000,
            from_account_id: 2,
            to_account_id: 3,
            amount: 200,
            memo: "lunch".to_string(),
        }]
    );
}

#[test]
fn transfer_of_the_whole_balance_is_allowed() {
    let mut db = bank();
    let from = db.ugocoin_accounts[1];
    let to = db.ugocoin_accounts[2];
    transfer(&mut db, &from, &to, Ugocoin::from_ugocents(500), &"all".to_string(), &moment(5)).unwrap();
    assert_eq!(balances(&db), vec![100_000, 0, 500]);
}

#[test]
fn transfer_of_nothing_is_logged_too() {
    let mut db = bank();
    let from = db.ugocoin_accounts[2];
    let to = db.ugocoin_accounts[1];
    transfer(&mut db, &from, &to, Ugocoin::from_ugocents(0), &"nil".to_string(), &moment(5)).unwrap();
    assert_eq!(balances(&db), vec![100_000, 500, 0]);
    assert_eq!(db.ugocoin_tx_logs.len(), 1);
    assert_eq!(db.ugocoin_tx_logs[0].amount, 0);
}

#[test]
fn transfer_rejects_a_negative_amount() {
    let mut db = bank();
    let from = db.ugocoin_accounts[1];
    let to = db.ugocoin_accounts[2];
    let err = transfer(&mut db, &from, &to, Ugocoin::from_ugocents(-1), &"x".to_string(), &moment(5))
        .unwrap_err();
    assert!(matches!(err.error, InnerError::NegativeTransfer));
    assert_eq!(balances(&db), vec![100_000, 500, 0]);
    assert!(db.ugocoin_tx_logs.is_empty());
}

#[test]
fn transfer_rejects_more_than_the_payer_holds() {
    let mut db = bank();
    let from = db.ugocoin_accounts[1];
    let to = db.ugocoin_accounts[2];
    let err = transfer(&mut db, &from, &to, Ugocoin::from_ugocents(501), &"x".to_string(), &moment(5))
        .unwrap_err();
    assert!(matches!(err.error, InnerError::InsufficientFunds));
    assert_eq!(balances(&db), vec![100_000, 500, 0]);
    assert!(db.ugocoin_tx_logs.is_empty());
}

#[test]
fn a_negative_amount_is_refused_before_the_funds_are_looked_at() {
    let mut db = bank();
    let from = account(9, Some(99), -500);
    let to = db.ugocoin_accounts[2];
    let err = transfer(&mut db, &from, &to, Ugocoin::from_ugocents(-100), &"x".to_string(), &moment(5))
        .unwrap_err();
    assert!(matches!(err.error, InnerError::NegativeTransfer));
}

#[test]
fn a_transfer_that_fails_after_the_debit_changes_nothing() {
    let mut db = bank();
    db.ugocoin_accounts.push(account(4, Some(12), i64::MAX - 10));
    let from = db.ugocoin_accounts[1];
    let to = db.ugocoin_accounts[3];
    let before = db.ugocoin_accounts.clone();
    // The payer can be debited, but the credit would not fit the receiving account.
    let err = transfer(&mut db, &from, &to, Ugocoin::from_ugocents(100), &"x".to_string(), &moment(5))
        .unwrap_err();
    assert!(matches!(err.error, InnerError::DatabaseError(_)));
    assert_eq!(db.ugocoin_accounts, before);
    assert!(db.ugocoin_tx_logs.is_empty());
}

#[test]
fn a_transfer_to_oneself_keeps_the_balance() {
    let mut db = bank();
    let own = db.ugocoin_accounts[1];
    transfer(&mut db, &own, &own, Ugocoin::from_ugocents(300), &"self".to_string(), &moment(5)).unwrap();
    assert_eq!(balances(&db), vec![100_000, 500, 0]);
    assert_eq!(db.ugocoin_tx_logs.len(), 1);
}

#[test]
fn transfers_keep_the_sum_of_all_balances() {
    let mut db = bank();
    let sum: i64 = balances(&db).iter().sum();
    let a = db.ugocoin_accounts[0];
    let b = db.ugocoin_accounts[1];
    let c = db.ugocoin_accounts[2];
    transfer(&mut db, &a, &b, Ugocoin::from_ugocents(700), &"1".to_string(), &moment(1)).unwrap();
    transfer(&mut db, &b, &c, Ugocoin::from_ugocents(500), &"2".to_string(), &moment(2)).unwrap();
    assert_eq!(balances(&db).iter().sum::<i64>(), sum);
    assert_eq!(db.ugocoin_tx_logs.len(), 2);
    assert_eq!(db.ugocoin_tx_logs[1].id, 2);
}

#[test]
fn credit_pays_out_of_the_central_bank() {
    let mut db = bank();
    let to = db.ugocoin_accounts[2];
    credit_account(&mut db, &to, Ugocoin::from_ugocoin(3), &"reward".to_string(), &moment(7)).unwrap();
    assert_eq!(balances(&db), vec![99_700, 500, 300]);
    assert_eq!(db.ugocoin_tx_logs[0].from_account_id, 1);
    assert_eq!(db.ugocoin_tx_logs[0].to_account_id, 3);
    assert_eq!(db.ugocoin_tx_logs[0].memo, "reward");
    assert_eq!(db.ugocoin_tx_logs[0].tx_time, 7);
}

#[test]
fn credit_fails_once_the_central_bank_is_empty() {
    let mut db = bank();
    let to = db.ugocoin_accounts[2];
    let err = credit_account(&mut db, &to, Ugocoin::from_ugocents(100_001), &"x".to_string(), &moment(7))
        .unwrap_err();
    assert!(matches!(err.error, InnerError::InsufficientFunds));
    assert_eq!(balances(&db), vec![100_000, 500, 0]);
}

#[test]
fn debit_pays_into_the_central_bank() {
    let mut db = bank();
    let from = db.ugocoin_accounts[1];
    debit_account(&mut db, &from, Ugocoin::from_ugocents(120), &"fine".to_string(), &moment(7)).unwrap();
    assert_eq!(balances(&db), vec![100_120, 380, 0]);
    assert_eq!(db.ugocoin_tx_logs[0].from_account_id, 2);
    assert_eq!(db.ugocoin_tx_logs[0].to_account_id, 1);
}

#[test]
fn credit_and_debit_need_a_central_bank() {
    let mut db = Storage::new();
    db.ugocoin_accounts.push(account(2, Some(10), 500));
    let own = db.ugocoin_accounts[0];
    let err = credit_account(&mut db, &own, Ugocoin::from_ugocents(1), &"x".to_string(), &moment(7))
        .unwrap_err();
    assert!(matches!(err.error, InnerError::DatabaseError(_)));
    let err = debit_account(&mut db, &own, Ugocoin::from_ugocents(1), &"x".to_string(), &moment(7))
        .unwrap_err();
    assert!(matches!(err.error, InnerError::DatabaseError(_)));
    assert_eq!(balances(&db), vec![500]);
}

#[test]
fn accounts_are_found_by_their_owner() {
    let db = bank();
    let user = User { id: 11, display_name: "kim".to_string(), streak: 0 };
    assert_eq!(get_user_account(&db, &user).unwrap(), account(3, Some(11), 0));
    assert_eq!(get_central_bank_account(&db).unwrap(), account(1, None, 100_000));
    let stranger = User { id: 12, display_name: "lee".to_string(), streak: 0 };
    let err = get_user_account(&db, &stranger).unwrap_err();
    assert!(matches!(err.error, InnerError::DatabaseError(_)));
}

#[test]
fn the_log_only_grows() {
    let mut db = bank();
    let a = db.ugocoin_accounts[0];
    let b = db.ugocoin_accounts[1];
    create_log(&mut db, &a, &b, Ugocoin::from_ugocents(5), &"one".to_string(), &moment(1)).unwrap();
    let first = db.ugocoin_tx_logs[0].clone();
    create_log(&mut db, &b, &a, Ugocoin::from_ugocents(6), &"two".to_string(), &moment(2)).unwrap();
    assert_eq!(db.ugocoin_tx_logs.len(), 2);
    assert_eq!(db.ugocoin_tx_logs[0], first);
    assert_eq!(db.ugocoin_tx_logs[1].id, 2);
    assert_eq!(db.ugocoin_tx_logs[1].amount, 6);
    assert_eq!(balances(&db), vec![100_000, 500, 0]);
}
