use vstd::prelude::*;

use crate::datetime::LocalDateTime;
use crate::error::database_error;
use crate::error::failure;
use crate::error::Error;
use crate::error::ErrorKind;
use crate::model::lemma_views_push;
use crate::storage::Storage;
use crate::storage::StorageView;
use crate::ugocoin::account::Ugocoin;
use crate::ugocoin::account::UgocoinAccount;

verus! {

/// One row of the transaction log: who paid whom how much, when and what for.
#[derive(Debug, Clone, PartialEq, Eq)]
pub struct UgocoinTransaction {
    pub id: i64,
    /// Seconds since the Unix epoch.
    pub tx_time: i64,
    pub from_account_id: i64,
    pub to_account_id: i64,
    /// In ugocents.
    pub amount: i64,
    pub memo: String,
}

/// What a [`UgocoinTransaction`] is in contracts.
pub struct TransactionView {
    pub id: int,
    pub tx_time: int,
    pub from_account_id: int,
    pub to_account_id: int,
    pub amount: int,
    pub memo: Seq<char>,
}

impl View for UgocoinTransaction {
    type V = TransactionView;

    open spec fn view(&self) -> TransactionView {
        TransactionView {
            id: self.id as int,
            tx_time: self.tx_time as int,
            from_account_id: self.from_account_id as int,
            to_account_id: self.to_account_id as int,
            amount: self.amount as int,
            memo: self.memo@,
        }
    }
}

/// Whether the log has no number left for a further row.
pub open spec fn log_is_full(log: Seq<TransactionView>) -> bool {
    log.len() >= i64::MAX
}

/// The row that records a payment of `amount` ugocents from the account
/// `from_id` to the account `to_id` at `time` under `memo`, as the next row
/// of `log`.
pub open spec fn next_log_row(
    log: Seq<TransactionView>,
    from_id: int,
    to_id: int,
    amount: int,
    memo: Seq<char>,
    time: int,
) -> TransactionView {
    TransactionView {
        id: log.len() as int + 1,
        tx_time: time,
        from_account_id: from_id,
        to_account_id: to_id,
        amount,
        memo,
    }
}

/// The store after [`create_log`], and the kind of failure if it failed: the
/// log gets one row more unless it is full.
pub open spec fn create_log_spec(
    db: StorageView,
    from_id: int,
    to_id: int,
    amount: int,
    memo: Seq<char>,
    time: int,
) -> (StorageView, Option<ErrorKind>) {
    if log_is_full(db.ugocoin_tx_logs) {
        (db, Some(ErrorKind::Database))
    } else {
        (
            StorageView {
                ugocoin_tx_logs: db.ugocoin_tx_logs.push(
                    next_log_row(db.ugocoin_tx_logs, from_id, to_id, amount, memo, time),
                ),
                ..db
            },
            None,
        )
    }
}

/// Appends a row to the transaction log. Rows are never changed or removed.
pub fn create_log(
    db: &mut Storage,
    from: &UgocoinAccount,
    to: &UgocoinAccount,
    amount: Ugocoin,
    memo: &String,
    now: &LocalDateTime,
) -> (res: Result<(), Error>)
    ensures
        (final(db)@, failure(res)) == create_log_spec(
            old(db)@,
            from.id as int,
            to.id as int,
            amount@,
            memo@,
            now.timestamp as int,
        ),
        res is Err ==> *final(db) == *old(db),
        final(db).users == old(db).users,
        final(db).users_discord_ids == old(db).users_discord_ids,
        final(db).scrums == old(db).scrums,
        final(db).scrum_responses == old(db).scrum_responses,
        final(db).ugocoin_accounts == old(db).ugocoin_accounts,
{
    let rows = db.ugocoin_tx_logs.len();
    if rows as u64 >= i64::MAX as u64 {
        return Err(database_error("integer overflow"));
    }
    let row = UgocoinTransaction {
        id: rows as i64 + 1,
        tx_time: now.timestamp,
        from_account_id: from.id,
        to_account_id: to.id,
        amount: amount.as_ugocents(),
        memo: memo.clone(),
    };
    proof {
        lemma_views_push(db.ugocoin_tx_logs@, row);
    }
    db.ugocoin_tx_logs.push(row);
    Ok(())
}

} // verus!
