//! The tables behind the poll and the ledger.

use vstd::prelude::*;

use crate::model::views;
use crate::scrum::Scrum;
use crate::scrum::ScrumView;
use crate::scrum_resp::ScrumResponse;
use crate::ugocoin::account::AccountView;
use crate::ugocoin::account::UgocoinAccount;
use crate::ugocoin::tx::TransactionView;
use crate::ugocoin::tx::UgocoinTransaction;
use crate::user::User;
use crate::user::UserView;

verus! {

/// Ties a chat identity to a user.
#[derive(Debug, Clone, Copy, PartialEq, Eq, Structural)]
pub struct DiscordLink {
    pub discord_id: u64,
    pub user_id: i64,
}

/// The rows of every table, each table in the order in which its rows were
/// written.
#[derive(Debug)]
pub struct Storage {
    pub users: Vec<User>,
    pub users_discord_ids: Vec<DiscordLink>,
    pub scrums: Vec<Scrum>,
    pub scrum_responses: Vec<ScrumResponse>,
    pub ugocoin_accounts: Vec<UgocoinAccount>,
    pub ugocoin_tx_logs: Vec<UgocoinTransaction>,
}

/// What a [`Storage`] is in contracts: the rows of every table.
pub struct StorageView {
    pub users: Seq<UserView>,
    pub users_discord_ids: Seq<DiscordLink>,
    pub scrums: Seq<ScrumView>,
    pub scrum_responses: Seq<ScrumResponse>,
    pub ugocoin_accounts: Seq<AccountView>,
    pub ugocoin_tx_logs: Seq<TransactionView>,
}

impl View for Storage {
    type V = StorageView;

    open spec fn view(&self) -> StorageView {
        StorageView {
            users: views(self.users@),
            users_discord_ids: self.users_discord_ids@,
            scrums: views(self.scrums@),
            scrum_responses: self.scrum_responses@,
            ugocoin_accounts: views(self.ugocoin_accounts@),
            ugocoin_tx_logs: views(self.ugocoin_tx_logs@),
        }
    }
}

impl Storage {
    /// A store without any row.
    pub fn new() -> (db: Storage)
        ensures
            db@ == (StorageView {
                users: Seq::empty(),
                users_discord_ids: Seq::empty(),
                scrums: Seq::empty(),
                scrum_responses: Seq::empty(),
                ugocoin_accounts: Seq::empty(),
                ugocoin_tx_logs: Seq::empty(),
            }),
    {
        let db = Storage {
            users: Vec::new(),
            users_discord_ids: Vec::new(),
            scrums: Vec::new(),
            scrum_responses: Vec::new(),
            ugocoin_accounts: Vec::new(),
            ugocoin_tx_logs: Vec::new(),
        };
        assert(db@.users =~= Seq::empty() && db@.scrums =~= Seq::empty());
        assert(db@.ugocoin_accounts =~= Seq::empty() && db@.ugocoin_tx_logs =~= Seq::empty());
        assert(db@.users_discord_ids =~= Seq::empty() && db@.scrum_responses =~= Seq::empty());
        db
    }
}

} // verus!
