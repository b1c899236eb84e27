use thousands::Separable;
use vstd::prelude::*;
use vstd::string::StringExecFns;

use crate::datetime::LocalDateTime;
use crate::error::database_error;
use crate::error::failure;
use crate::error::Error;
use crate::error::ErrorKind;
use crate::error::InnerError;
use crate::model::views;
use crate::storage::Storage;
use crate::storage::StorageView;
use crate::text::grouped;
use crate::text::padded_decimal;
use crate::text::push_char;
use crate::text::push_padded_decimal;
use crate::text::push_signed_decimal;
use crate::text::signed_decimal;
use crate::ugocoin::tx::create_log;
use crate::ugocoin::tx::create_log_spec;
use crate::ugocoin::tx::next_log_row;
use crate::user::User;

verus! {

/// The whole coins of an amount of `cents`, rounded towards zero.
pub open spec fn whole_coins(cents: int) -> int {
    if cents >= 0 {
        cents / 100
    } else {
        -((-cents) / 100)
    }
}

/// The cents of an amount beyond its whole coins; they carry the amount's sign.
pub open spec fn odd_cents(cents: int) -> int {
    if cents >= 0 {
        cents % 100
    } else {
        -((-cents) % 100)
    }
}

/// An amount of `cents` as it is shown to people. Nothing shows as `U$0.00`.
/// An amount of a coin or more shows its coins, grouped in thousands, and its
/// cents in two digits. Any other amount shows only the cents beyond its
/// whole coins.
pub open spec fn coin_text(cents: int) -> Seq<char> {
    if cents == 0 {
        "U$0.00"@
    } else if whole_coins(cents) > 0 {
        "U$"@ + grouped(whole_coins(cents) as nat) + seq!['.'] + padded_decimal(
            odd_cents(cents) as nat,
            2,
        )
    } else {
        signed_decimal(odd_cents(cents)) + " U\u{a2}"@
    }
}

/// `thousands::Separable::separate_with_commas` on an `i64`: the number's
/// decimal digits with a comma before every group of three digits counted
/// from the right, behind the minus sign of a negative number.
#[verifier::external_body]
fn separate_with_commas(n: i64) -> (text: String)
    ensures
        n >= 0 ==> text@ == grouped(n as nat),
        n < 0 ==> text@ == seq!['-'] + grouped((-n) as nat),
{
    n.separate_with_commas()
}

/// An amount of money, held as a whole number of ugocents. One ugocoin is a
/// hundred ugocents; no amount is ever fractional.
#[derive(PartialEq, Eq, Structural, PartialOrd, Ord, Clone, Copy, Debug)]
pub struct Ugocoin(i64);

impl View for Ugocoin {
    type V = int;

    /// The amount in ugocents.
    closed spec fn view(&self) -> int {
        self.0 as int
    }
}

impl Ugocoin {
    /// Amounts of the same number of ugocents are the same amount.
    pub proof fn lemma_same_cents(self, other: Ugocoin)
        ensures
            self@ == other@ <==> self == other,
    {
    }

    /// The amount of `cents` ugocents.
    pub fn from_ugocents(cents: i64) -> (amount: Ugocoin)
        ensures
            amount@ == cents,
    {
        Ugocoin(cents)
    }

    /// The amount of `coins` ugocoins.
    pub fn from_ugocoin(coins: i64) -> (amount: Ugocoin)
        requires
            i64::MIN <= coins * 100 <= i64::MAX,
        ensures
            amount@ == coins * 100,
    {
        Ugocoin(coins * 100)
    }

    /// The amount in ugocents.
    pub fn as_ugocents(&self) -> (cents: i64)
        ensures
            cents == self@,
    {
        self.0
    }

    /// The amount as it is shown to people.
    pub fn to_string(&self) -> (text: String)
        ensures
            text@ == coin_text(self@),
    {
        let cents = self.0 % 100;
        let coins = self.0 / 100;
        assert(coins == whole_coins(self@) && cents == odd_cents(self@));
        if coins == 0 && cents == 0 {
            String::from_str("U$0.00")
        } else if coins > 0 {
            let mut text = String::from_str("U$");
            let digits = separate_with_commas(coins);
            text.append(digits.as_str());
            push_char(&mut text, '.');
            push_padded_decimal(&mut text, cents as u64, 2);
            assert(text@ =~= coin_text(self@));
            text
        } else {
            let mut text = String::new();
            push_signed_decimal(&mut text, cents);
            text.append(" U\u{a2}");
            assert(text@ =~= coin_text(self@));
            text
        }
    }
}

/// One row of the accounts table. The account without a `user_id` is the
/// central bank.
#[derive(Debug, Clone, Copy, PartialEq, Eq, Structural)]
pub struct UgocoinAccount {
    pub id: i64,
    pub user_id: Option<i64>,
    pub balance: Ugocoin,
}

/// What a [`UgocoinAccount`] is in contracts; the balance is in ugocents.
pub struct AccountView {
    pub id: int,
    pub user_id: Option<int>,
    pub balance: int,
}

impl View for UgocoinAccount {
    type V = AccountView;

    open spec fn view(&self) -> AccountView {
        AccountView {
            id: self.id as int,
            user_id: match self.user_id {
                Some(id) => Some(id as int),
                None => None,
            },
            balance: self.balance@,
        }
    }
}

/// Whether `k` is the first row of `accounts` that belongs to `owner`; the
/// central bank's account belongs to nobody.
pub open spec fn is_account_of(accounts: Seq<AccountView>, owner: Option<int>, k: int) -> bool {
    &&& 0 <= k < accounts.len()
    &&& accounts[k].user_id == owner
    &&& forall|j: int| 0 <= j < k ==> (#[trigger] accounts[j]).user_id != owner
}

/// The first row of `accounts` that belongs to `owner`, if there is one.
pub open spec fn find_account(accounts: Seq<AccountView>, owner: Option<int>) -> Option<
    AccountView,
> {
    if exists|k: int| is_account_of(accounts, owner, k) {
        Some(accounts[choose|k: int| is_account_of(accounts, owner, k)])
    } else {
        None
    }
}

/// The accounts table once `amount` ugocents have left every account with
/// the id `from_id` and reached every account with the id `to_id`. No row
/// comes or goes, and no other field changes.
pub open spec fn moved(accounts: Seq<AccountView>, from_id: int, to_id: int, amount: int) -> Seq<
    AccountView,
> {
    Seq::new(
        accounts.len(),
        |i: int|
            AccountView {
                balance: accounts[i].balance - (if accounts[i].id == from_id {
                    amount
                } else {
                    0
                }) + (if accounts[i].id == to_id {
                    amount
                } else {
                    0
                }),
                ..accounts[i]
            },
    )
}

/// Whether moving `amount` ugocents from `from_id` to `to_id` would take a
/// balance out of the numbers that the table can hold, at the debit or at
/// the credit that follows it.
pub open spec fn transfer_overflows(
    accounts: Seq<AccountView>,
    from_id: int,
    to_id: int,
    amount: int,
) -> bool {
    exists|i: int|
        #![trigger accounts[i]]
        0 <= i < accounts.len() && {
            ||| accounts[i].id == from_id && accounts[i].balance - amount < i64::MIN
            ||| accounts[i].id == to_id && accounts[i].id != from_id && accounts[i].balance
                + amount > i64::MAX
        }
}

/// Why a transfer of `amount` ugocents out of an account that holds
/// `balance` is refused before anything is touched, if it is: a negative
/// amount first, then an amount that the account does not hold.
pub open spec fn transfer_refusal(balance: int, amount: int) -> Option<ErrorKind> {
    if amount < 0 {
        Some(ErrorKind::NegativeTransfer)
    } else if balance < amount {
        Some(ErrorKind::InsufficientFunds)
    } else {
        None
    }
}

/// The store after [`transfer`], and the kind of failure if it failed.
///
/// A negative amount is refused, then an amount that the paying account
/// does not hold, then one that the store cannot take. A transfer that
/// fails leaves the store as it was. One that succeeds moves the amount
/// and adds one row to the log.
pub open spec fn transfer_spec(
    db: StorageView,
    from: AccountView,
    to: AccountView,
    amount: int,
    memo: Seq<char>,
    time: int,
) -> (StorageView, Option<ErrorKind>) {
    if transfer_refusal(from.balance, amount) is Some {
        (db, transfer_refusal(from.balance, amount))
    } else if transfer_overflows(db.ugocoin_accounts, from.id, to.id, amount) {
        (db, Some(ErrorKind::Database))
    } else {
        let (logged, refused) = create_log_spec(db, from.id, to.id, amount, memo, time);
        if refused is Some {
            (db, refused)
        } else {
            (
                StorageView {
                    ugocoin_accounts: moved(db.ugocoin_accounts, from.id, to.id, amount),
                    ..logged
                },
                None,
            )
        }
    }
}

/// The store after [`credit_account`], and the kind of failure if it failed.
pub open spec fn credit_account_spec(
    db: StorageView,
    to: AccountView,
    amount: int,
    memo: Seq<char>,
    time: int,
) -> (StorageView, Option<ErrorKind>) {
    match find_account(db.ugocoin_accounts, None) {
        Some(central) => transfer_spec(db, central, to, amount, memo, time),
        None => (db, Some(ErrorKind::Database)),
    }
}

/// The store after [`debit_account`], and the kind of failure if it failed.
pub open spec fn debit_account_spec(
    db: StorageView,
    from: AccountView,
    amount: int,
    memo: Seq<char>,
    time: int,
) -> (StorageView, Option<ErrorKind>) {
    match find_account(db.ugocoin_accounts, None) {
        Some(central) => transfer_spec(db, from, central, amount, memo, time),
        None => (db, Some(ErrorKind::Database)),
    }
}

fn owner_is(account: &UgocoinAccount, owner: Option<i64>) -> (same: bool)
    ensures
        same == (account@.user_id == match owner {
            Some(id) => Some(id as int),
            None => None,
        }),
{
    match (account.user_id, owner) {
        (Some(a), Some(b)) => a == b,
        (None, None) => true,
        _ => false,
    }
}

/// Finds the first row of the accounts table that belongs to `owner`.
fn first_account(accounts: &Vec<UgocoinAccount>, owner: Option<i64>) -> (found: Option<
    UgocoinAccount,
>)
    ensures
        match found {
            Some(account) => find_account(
                views(accounts@),
                match owner {
                    Some(id) => Some(id as int),
                    None => None,
                },
            ) == Some(account@),
            None => find_account(
                views(accounts@),
                match owner {
                    Some(id) => Some(id as int),
                    None => None,
                },
            ) is None,
        },
{
    let ghost wanted: Option<int> = match owner {
        Some(id) => Some(id as int),
        None => None,
    };
    let mut i: usize = 0;
    while i < accounts.len()
        invariant
            i <= accounts.len(),
            wanted == match owner {
                Some(id) => Some(id as int),
                None => None::<int>,
            },
            forall|j: int| 0 <= j < i ==> (#[trigger] views(accounts@)[j]).user_id != wanted,
        decreases accounts.len() - i,
    {
        if owner_is(&accounts[i], owner) {
            proof {
                assert(views(accounts@)[i as int] == accounts@[i as int]@);
                assert(is_account_of(views(accounts@), wanted, i as int));
                let k = choose|k: int| is_account_of(views(accounts@), wanted, k);
                assert(views(accounts@)[k].user_id == wanted);
                assert(k == i);
            }
            return Some(accounts[i]);
        }
        i += 1;
    }
    proof {
        assert forall|k: int| !is_account_of(views(accounts@), wanted, k) by {
            if 0 <= k < accounts@.len() {
                assert(views(accounts@)[k].user_id != wanted);
            }
        }
    }
    None
}

/// The failure of a lookup that needs a row and finds none: a failure of the
/// store, in the store's words for it, with nothing said yet about what was
/// being done.
fn row_not_found() -> (err: Error)
    ensures
        err.error matches InnerError::DatabaseError(told) && told@
            == "no rows returned by a query that expected to return at least one row"@,
        err.error.kind() == ErrorKind::Database,
        err.ctx@ == Seq::<char>::empty(),
{
    database_error("no rows returned by a query that expected to return at least one row")
}

/// The account of `user`: the first row that names the user as its owner.
pub fn get_user_account(db: &Storage, user: &User) -> (res: Result<UgocoinAccount, Error>)
    ensures
        match res {
            Ok(account) => find_account(db@.ugocoin_accounts, Some(user.id as int)) == Some(
                account@,
            ),
            Err(err) => err.error.kind() == ErrorKind::Database && find_account(
                db@.ugocoin_accounts,
                Some(user.id as int),
            ) is None,
        },
{
    match first_account(&db.ugocoin_accounts, Some(user.id)) {
        Some(account) => Ok(account),
        None => Err(row_not_found()),
    }
}

/// The central bank's account: the first row without an owner.
pub fn get_central_bank_account(db: &Storage) -> (res: Result<UgocoinAccount, Error>)
    ensures
        match res {
            Ok(account) => find_account(db@.ugocoin_accounts, None) == Some(account@),
            Err(err) => err.error.kind() == ErrorKind::Database && find_account(
                db@.ugocoin_accounts,
                None,
            ) is None,
        },
{
    match first_account(&db.ugocoin_accounts, None) {
        Some(account) => Ok(account),
        None => Err(row_not_found()),
    }
}

/// Adds `delta` ugocents to the balance of every account with the id `id`,
/// unless one of them cannot hold the sum.
fn shift_balances(accounts: &mut Vec<UgocoinAccount>, id: i64, delta: i64) -> (done: bool)
    ensures
        done <==> forall|i: int|
            #![trigger old(accounts)@[i]]
            0 <= i < old(accounts)@.len() && old(accounts)@[i].id == id ==> i64::MIN <= old(
                accounts,
            )@[i].balance@ + delta <= i64::MAX,
        done ==> final(accounts)@.len() == old(accounts)@.len(),
        done ==> forall|i: int|
            #![trigger final(accounts)@[i]]
            0 <= i < old(accounts)@.len() ==> {
                &&& final(accounts)@[i].id == old(accounts)@[i].id
                &&& final(accounts)@[i].user_id == old(accounts)@[i].user_id
                &&& final(accounts)@[i].balance@ == old(accounts)@[i].balance@ + (if old(
                    accounts,
                )@[i].id == id {
                    delta as int
                } else {
                    0
                })
            },
{
    let mut i: usize = 0;
    while i < accounts.len()
        invariant
            i <= accounts.len(),
            accounts@.len() == old(accounts)@.len(),
            forall|j: int|
                #![trigger old(accounts)@[j]]
                0 <= j < i && old(accounts)@[j].id == id ==> i64::MIN <= old(accounts)@[j].balance@
                    + delta <= i64::MAX,
            forall|j: int|
                #![trigger accounts@[j]]
                i <= j < accounts@.len() ==> accounts@[j] == old(accounts)@[j],
            forall|j: int|
                #![trigger accounts@[j]]
                0 <= j < i ==> {
                    &&& accounts@[j].id == old(accounts)@[j].id
                    &&& accounts@[j].user_id == old(accounts)@[j].user_id
                    &&& accounts@[j].balance@ == old(accounts)@[j].balance@ + (if old(
                        accounts,
                    )@[j].id == id {
                        delta as int
                    } else {
                        0
                    })
                },
        decreases accounts.len() - i,
    {
        let row = accounts[i];
        if row.id == id {
            let balance = row.balance.as_ugocents();
            if (delta >= 0 && balance > i64::MAX - delta) || (delta < 0 && balance < i64::MIN
                - delta) {
                assert(old(accounts)@[i as int].id == id);
                return false;
            }
            accounts.set(
                i,
                UgocoinAccount {
                    id: row.id,
                    user_id: row.user_id,
                    balance: Ugocoin::from_ugocents(balance + delta),
                },
            );
        }
        i += 1;
    }
    true
}

/// Copies the accounts table, so that a transfer can be prepared aside.
fn copy_accounts(accounts: &Vec<UgocoinAccount>) -> (copy: Vec<UgocoinAccount>)
    ensures
        copy@ == accounts@,
{
    let mut copy: Vec<UgocoinAccount> = Vec::new();
    let mut i: usize = 0;
    while i < accounts.len()
        invariant
            i <= accounts.len(),
            copy@ =~= accounts@.take(i as int),
        decreases accounts.len() - i,
    {
        copy.push(accounts[i]);
        i += 1;
    }
    assert(accounts@.take(i as int) =~= accounts@);
    copy
}

/// Says whether `amount` may be paid out of the account `from`.
pub fn check_transfer(from: &UgocoinAccount, amount: Ugocoin) -> (res: Result<(), Error>)
    ensures
        failure(res) == transfer_refusal(from@.balance, amount@),
{
    if amount.as_ugocents() < 0 {
        return Err(Error::new(InnerError::NegativeTransfer));
    }
    if from.balance.as_ugocents() < amount.as_ugocents() {
        return Err(Error::new(InnerError::InsufficientFunds));
    }
    Ok(())
}

/// Moves `amount` from the account `from` to the account `to` and records the
/// payment in the log, all of it or nothing.
///
/// A negative amount is refused, and so is one that `from` does not hold.
/// The debit, the credit and the log row are prepared one after the other;
/// where the store cannot take one of them, the ones before it are dropped
/// and the store stays as it was.
pub fn transfer(
    db: &mut Storage,
    from: &UgocoinAccount,
    to: &UgocoinAccount,
    amount: Ugocoin,
    memo: &String,
    now: &LocalDateTime,
) -> (res: Result<(), Error>)
    ensures
        (final(db)@, failure(res)) == transfer_spec(
            old(db)@,
            from@,
            to@,
            amount@,
            memo@,
            now.timestamp as int,
        ),
        res is Err ==> *final(db) == *old(db),
        final(db).users == old(db).users,
        final(db).users_discord_ids == old(db).users_discord_ids,
        final(db).scrums == old(db).scrums,
        final(db).scrum_responses == old(db).scrum_responses,
{
    match check_transfer(from, amount) {
        Ok(()) => {},
        Err(err) => {
            return Err(err);
        },
    }
    let cents = amount.as_ugocents();
    let ghost before = db@.ugocoin_accounts;
    let mut staged = copy_accounts(&db.ugocoin_accounts);
    if !shift_balances(&mut staged, from.id, -cents) {
        proof {
            let i = choose|i: int|
                #![trigger db.ugocoin_accounts@[i]]
                0 <= i < db.ugocoin_accounts@.len() && db.ugocoin_accounts@[i].id == from.id && !(
                i64::MIN <= db.ugocoin_accounts@[i].balance@ - cents <= i64::MAX);
            assert(before[i].id == from.id && before[i].balance - cents < i64::MIN);
        }
        return Err(database_error("integer overflow"));
    }
    let ghost debited = staged@;
    if !shift_balances(&mut staged, to.id, cents) {
        proof {
            let i = choose|i: int|
                #![trigger debited[i]]
                0 <= i < debited.len() && debited[i].id == to.id && !(i64::MIN
                    <= debited[i].balance@ + cents <= i64::MAX);
            assert(db.ugocoin_accounts@[i].id == to.id);
            assert(before[i].id == to.id && before[i].id != from.id && before[i].balance + cents
                > i64::MAX);
        }
        return Err(database_error("integer overflow"));
    }
    proof {
        assert forall|i: int| #![trigger before[i]] 0 <= i < before.len() implies !({
            ||| before[i].id == from.id && before[i].balance - amount@ < i64::MIN
            ||| before[i].id == to.id && before[i].id != from.id && before[i].balance + amount@
                > i64::MAX
        }) by {
            assert(debited[i].id == db.ugocoin_accounts@[i].id);
            assert(staged@[i].id == debited[i].id);
        }
        assert forall|i: int| 0 <= i < before.len() implies #[trigger] views(staged@)[i] == moved(
            before,
            from.id as int,
            to.id as int,
            amount@,
        )[i] by {
            assert(debited[i].id == db.ugocoin_accounts@[i].id);
            assert(staged@[i].id == debited[i].id);
            assert(before[i] == db.ugocoin_accounts@[i]@);
        }
        assert(views(staged@) =~= moved(before, from.id as int, to.id as int, amount@));
    }
    match create_log(db, from, to, amount, memo, now) {
        Err(err) => {
            return Err(err);
        },
        Ok(()) => {},
    }
    db.ugocoin_accounts = staged;
    Ok(())
}

/// Pays `amount` to the account `to` out of the central bank's account.
pub fn credit_account(
    db: &mut Storage,
    to: &UgocoinAccount,
    amount: Ugocoin,
    memo: &String,
    now: &LocalDateTime,
) -> (res: Result<(), Error>)
    ensures
        (final(db)@, failure(res)) == credit_account_spec(
            old(db)@,
            to@,
            amount@,
            memo@,
            now.timestamp as int,
        ),
        res is Err ==> *final(db) == *old(db),
        final(db).users == old(db).users,
        final(db).users_discord_ids == old(db).users_discord_ids,
        final(db).scrums == old(db).scrums,
        final(db).scrum_responses == old(db).scrum_responses,
{
    let central_account = match get_central_bank_account(db) {
        Ok(account) => account,
        Err(err) => {
            return Err(err);
        },
    };
    transfer(db, &central_account, to, amount, memo, now)
}

/// Takes `amount` from the account `from` back into the central bank's account.
pub fn debit_account(
    db: &mut Storage,
    from: &UgocoinAccount,
    amount: Ugocoin,
    memo: &String,
    now: &LocalDateTime,
) -> (res: Result<(), Error>)
    ensures
        (final(db)@, failure(res)) == debit_account_spec(
            old(db)@,
            from@,
            amount@,
            memo@,
            now.timestamp as int,
        ),
        res is Err ==> *final(db) == *old(db),
        final(db).users == old(db).users,
        final(db).users_discord_ids == old(db).users_discord_ids,
        final(db).scrums == old(db).scrums,
        final(db).scrum_responses == old(db).scrum_responses,
{
    let central_account = match get_central_bank_account(db) {
        Ok(account) => account,
        Err(err) => {
            return Err(err);
        },
    };
    transfer(db, from, &central_account, amount, memo, now)
}

/// A transfer of a negative amount is refused, and so is one of more than
/// the paying account holds; neither changes the store.
pub proof fn lemma_transfer_rejects(
    db: StorageView,
    from: AccountView,
    to: AccountView,
    amount: int,
    memo: Seq<char>,
    time: int,
)
    ensures
        amount < 0 ==> transfer_spec(db, from, to, amount, memo, time) == (
            db,
            Some(ErrorKind::NegativeTransfer),
        ),
        0 <= amount && from.balance < amount ==> transfer_spec(db, from, to, amount, memo, time)
            == (db, Some(ErrorKind::InsufficientFunds)),
{
}

/// A transfer happens as a whole or not at all. One that fails, at whatever
/// step, leaves every balance and the log as they were. One that succeeds
/// has debited, credited and logged, and changed nothing else.
pub proof fn lemma_transfer_all_or_nothing(
    db: StorageView,
    from: AccountView,
    to: AccountView,
    amount: int,
    memo: Seq<char>,
    time: int,
)
    ensures
        transfer_spec(db, from, to, amount, memo, time).1 is Some ==> transfer_spec(
            db,
            from,
            to,
            amount,
            memo,
            time,
        ).0 == db,
        transfer_spec(db, from, to, amount, memo, time).1 is None ==> transfer_spec(
            db,
            from,
            to,
            amount,
            memo,
            time,
        ).0 == (StorageView {
            ugocoin_accounts: moved(db.ugocoin_accounts, from.id, to.id, amount),
            ugocoin_tx_logs: db.ugocoin_tx_logs.push(
                next_log_row(db.ugocoin_tx_logs, from.id, to.id, amount, memo, time),
            ),
            ..db
        }),
        transfer_spec(db, from, to, amount, memo, time).1 is None ==> amount >= 0 && from.balance
            >= amount,
{
}

/// The sum of all balances, in ugocents.
pub open spec fn total(accounts: Seq<AccountView>) -> int
    decreases accounts.len(),
{
    if accounts.len() == 0 {
        0
    } else {
        total(accounts.drop_last()) + accounts.last().balance
    }
}

/// `amount` for every account with the id `id`.
pub open spec fn share(accounts: Seq<AccountView>, id: int, amount: int) -> int
    decreases accounts.len(),
{
    if accounts.len() == 0 {
        0
    } else {
        share(accounts.drop_last(), id, amount) + if accounts.last().id == id {
            amount
        } else {
            0
        }
    }
}

/// Whether exactly one account has the id `id`.
pub open spec fn holds_once(accounts: Seq<AccountView>, id: int) -> bool {
    exists|k: int|
        0 <= k < accounts.len() && (#[trigger] accounts[k]).id == id && forall|j: int|
            0 <= j < accounts.len() && j != k ==> (#[trigger] accounts[j]).id != id
}

/// Moving money changes the sum of all balances by what arrives less what leaves.
pub proof fn lemma_total_moved(accounts: Seq<AccountView>, from_id: int, to_id: int, amount: int)
    ensures
        total(moved(accounts, from_id, to_id, amount)) == total(accounts) - share(
            accounts,
            from_id,
            amount,
        ) + share(accounts, to_id, amount),
    decreases accounts.len(),
{
    if accounts.len() > 0 {
        lemma_total_moved(accounts.drop_last(), from_id, to_id, amount);
        assert(moved(accounts, from_id, to_id, amount).drop_last() =~= moved(
            accounts.drop_last(),
            from_id,
            to_id,
            amount,
        ));
    }
}

/// Where no account has the id, nothing is shared out; where exactly one
/// has it, the amount is shared out once.
pub proof fn lemma_share_once(accounts: Seq<AccountView>, id: int, amount: int)
    ensures
        (forall|j: int| 0 <= j < accounts.len() ==> (#[trigger] accounts[j]).id != id) ==> share(
            accounts,
            id,
            amount,
        ) == 0,
        holds_once(accounts, id) ==> share(accounts, id, amount) == amount,
    decreases accounts.len(),
{
    if accounts.len() > 0 {
        let front = accounts.drop_last();
        lemma_share_once(front, id, amount);
        if forall|j: int| 0 <= j < accounts.len() ==> (#[trigger] accounts[j]).id != id {
            assert forall|j: int| 0 <= j < front.len() implies (#[trigger] front[j]).id != id by {
                assert(front[j] == accounts[j]);
            }
        }
        if holds_once(accounts, id) {
            let k = choose|k: int|
                0 <= k < accounts.len() && (#[trigger] accounts[k]).id == id && forall|j: int|
                    0 <= j < accounts.len() && j != k ==> (#[trigger] accounts[j]).id != id;
            if k == accounts.len() - 1 {
                assert forall|j: int| 0 <= j < front.len() implies (#[trigger] front[j]).id
                    != id by {
                    assert(front[j] == accounts[j]);
                }
            } else {
                assert(front[k] == accounts[k]);
                assert forall|j: int| 0 <= j < front.len() && j != k implies (#[trigger] front[j]).id
                    != id by {
                    assert(front[j] == accounts[j]);
                }
                assert(holds_once(front, id));
                assert(accounts[accounts.len() - 1].id != id);
            }
        }
    }
}

/// Money is neither made nor lost: a transfer between two accounts of the
/// table leaves the sum of all balances as it was.
pub proof fn lemma_transfer_conserves_total(
    db: StorageView,
    from: AccountView,
    to: AccountView,
    amount: int,
    memo: Seq<char>,
    time: int,
)
    requires
        holds_once(db.ugocoin_accounts, from.id),
        holds_once(db.ugocoin_accounts, to.id),
    ensures
        total(transfer_spec(db, from, to, amount, memo, time).0.ugocoin_accounts) == total(
            db.ugocoin_accounts,
        ),
{
    lemma_total_moved(db.ugocoin_accounts, from.id, to.id, amount);
    lemma_share_once(db.ugocoin_accounts, from.id, amount);
    lemma_share_once(db.ugocoin_accounts, to.id, amount);
}

} // verus!
