//! Closing a scrum, and what that comes to for each user and for the ledger.

use vstd::prelude::*;

use crate::channel::Channel;
use crate::channel::ChannelView;
use crate::datetime::LocalDateTime;
use crate::datetime::ScrumDate;
use crate::datetime::date_text;
use crate::datetime::parsed_date;
use crate::datetime::scrum_date_format;
use crate::error::Error;
use crate::error::ErrorKind;
use crate::error::database_error;
use crate::error::failure;
use crate::invariants::lemma_settle_all_frame;
use crate::scrum::Availability;
use crate::scrum::AvailabilityView;
use crate::scrum::ParsedScrumReacts;
use crate::scrum::ParsedView;
use crate::scrum::Scrum;
use crate::scrum::ScrumReact;
use crate::scrum::ScrumStatus;
use crate::scrum::ScrumView;
use crate::scrum::checked_scrum_reward;
use crate::scrum::close_notif_text;
use crate::scrum::closed_text;
use crate::scrum::format_scrum_close_notif;
use crate::scrum::reward_coins;
use crate::scrum::reward_fits;
use crate::scrum::scrum_closed_message;
use crate::scrum::scrum_status;
use crate::scrum::status_of;
use crate::scrum::table::closed;
use crate::scrum::table::mark_closed;
use crate::storage::Storage;
use crate::storage::StorageView;
use crate::text::u64_of_text;
use crate::ugocoin::account::AccountView;
use crate::ugocoin::account::Ugocoin;
use crate::ugocoin::account::credit_account;
use crate::ugocoin::account::credit_account_spec;
use crate::ugocoin::account::find_account;
use crate::ugocoin::account::get_user_account;
use crate::ugocoin::account::holds_once;
use crate::ugocoin::account::is_account_of;
use crate::ugocoin::account::lemma_transfer_conserves_total;
use crate::ugocoin::account::total;
use crate::user::clear_streak;
use crate::user::clear_streak_spec;
use crate::user::increment_streak;
use crate::user::increment_streak_spec;
use crate::user::incremented;

verus! {

/// The memo of the reward for the scrum of the day whose text is `date`.
pub open spec fn reward_memo(date: Seq<char>) -> Seq<char> {
    "Scrum reward for "@ + date
}

/// What a scrum owes a participant when it closes.
#[derive(Debug, Clone, Copy, PartialEq, Eq, Structural)]
pub enum Settlement {
    /// The participant answered: the streak goes up by one, and `amount` is paid.
    Reward { amount: Ugocoin },
    /// The participant did not answer: the streak starts again from nothing.
    Reset,
}

/// What a [`Settlement`] is in contracts; the amount is in ugocents.
pub enum SettlementView {
    Reward { cents: int },
    Reset,
}

impl View for Settlement {
    type V = SettlementView;

    open spec fn view(&self) -> SettlementView {
        match self {
            Settlement::Reward { amount } => SettlementView::Reward { cents: amount@ },
            Settlement::Reset => SettlementView::Reset,
        }
    }
}

/// What a scrum owes the participant of `entry`; nothing can be said where
/// the reward is more than an account can hold.
pub open spec fn settlement_spec(entry: AvailabilityView) -> Option<SettlementView> {
    if entry.react == ScrumReact::Unknown {
        Some(SettlementView::Reset)
    } else if reward_fits(entry.user.streak + 1) {
        Some(SettlementView::Reward { cents: reward_coins(entry.user.streak + 1) * 100 })
    } else {
        None
    }
}

/// Says what a scrum owes a participant when it closes. Whoever answered,
/// either way, is paid the reward of the streak as it stands after this
/// scrum; whoever did not answer loses the streak.
pub fn settlement_for(entry: &Availability) -> (res: Result<Settlement, Error>)
    ensures
        match res {
            Ok(owed) => settlement_spec(entry@) == Some(owed@),
            Err(err) => settlement_spec(entry@) is None && err.error.kind() == ErrorKind::Database,
        },
{
    match entry.react {
        ScrumReact::Available | ScrumReact::Unavailable => {
            let reward = if entry.user.streak == i64::MAX {
                None
            } else {
                checked_scrum_reward(entry.user.streak + 1)
            };
            match reward {
                Some(amount) => Ok(Settlement::Reward { amount }),
                None => Err(database_error("integer overflow")),
            }
        },
        ScrumReact::Unknown => Ok(Settlement::Reset),
    }
}

/// Writes the memo of the reward for the scrum of the day `date`.
pub fn reward_memo_for(date: &ScrumDate) -> (memo: String)
    requires
        date.is_valid(),
    ensures
        memo@ == reward_memo(date.text()),
{
    let mut memo = String::from_str("Scrum reward for ");
    let day = date.format();
    memo.append(day.as_str());
    memo
}

/// Writes the memo of the reward for the scrum `scrum`.
pub fn scrum_reward_memo(scrum: &Scrum) -> (res: Result<String, Error>)
    ensures
        match res {
            Ok(memo) => parsed_date(scrum@.scrum_date, scrum_date_format()) matches Some(
                (year, month, day),
            ) && memo@ == reward_memo(date_text(year, month, day)),
            Err(err) => err.error.kind() == ErrorKind::DateTimeParse && parsed_date(
                scrum@.scrum_date,
                scrum_date_format(),
            ) is None,
        },
{
    match scrum.date() {
        Ok(date) => Ok(reward_memo_for(&date)),
        Err(err) => Err(err),
    }
}

/// The outcome under which a scrum is closed at once, if the tally decides
/// the scrum: a tally that leaves the outcome unknown closes nothing.
pub fn decisive_status(reactions: &ParsedScrumReacts) -> (decided: Option<ScrumStatus>)
    ensures
        decided == (match status_of(
            reactions@.num_available as int,
            reactions@.num_unavailable as int,
        ) {
            ScrumStatus::Unknown => None,
            status => Some(status),
        }),
{
    match scrum_status(reactions) {
        ScrumStatus::Unknown => None,
        status => Some(status),
    }
}

/// Whether a scrum that is open or not, and is of the day `date`, takes
/// answers at the moment `now`: it does while it is open and `now` is of
/// its day.
pub fn takes_answers_on(is_open: bool, date: &ScrumDate, now: &LocalDateTime) -> (open: bool)
    ensures
        open == (is_open && *date == now.date),
{
    is_open && *date == now.date
}

/// Whether a reaction to the poll of `scrum` counts at the moment `now`: the
/// scrum is open, and it is the scrum of the day.
pub fn takes_answers(scrum: &Scrum, now: &LocalDateTime) -> (res: Result<bool, Error>)
    ensures
        match res {
            Ok(open) => open == answers_taken(scrum@, *now) && (scrum.is_open ==> parsed_date(
                scrum@.scrum_date,
                scrum_date_format(),
            ) is Some),
            Err(err) => scrum.is_open && err.error.kind() == ErrorKind::DateTimeParse
                && parsed_date(scrum@.scrum_date, scrum_date_format()) is None,
        },
{
    // A closed scrum takes no more answers, whatever its day.
    if !scrum.is_open {
        return Ok(false);
    }
    // Neither does the scrum of another day.
    match scrum.date() {
        Ok(date) => Ok(takes_answers_on(scrum.is_open, &date, now)),
        Err(err) => Err(err),
    }
}

/// Whether the scrum is open and is the scrum of the day of `now`.
pub open spec fn answers_taken(scrum: ScrumView, now: LocalDateTime) -> bool {
    scrum.is_open && parsed_date(scrum.scrum_date, scrum_date_format()) == Some(
        (now.date.year as int, now.date.month as int, now.date.day as int),
    )
}

/// The store once the scrum `scrum` is settled with one participant, and
/// the kind of failure if that failed.
///
/// Whoever answered, either way, has the streak raised by one and is paid
/// the reward of the raised streak out of the central bank, under a memo
/// with the scrum's day. Whoever did not answer has the streak put back to
/// zero. Where the reward is more than an account can hold, nothing is done.
pub open spec fn settle_spec(db: StorageView, entry: AvailabilityView, scrum: ScrumView, time: int) -> (
    StorageView,
    Option<ErrorKind>,
) {
    match settlement_spec(entry) {
        None => (db, Some(ErrorKind::Database)),
        Some(SettlementView::Reset) => (clear_streak_spec(db, entry.user.id), None),
        Some(SettlementView::Reward { cents }) => {
            let (raised, refused) = increment_streak_spec(db, entry.user.id);
            if refused is Some {
                (raised, refused)
            } else {
                match find_account(raised.ugocoin_accounts, Some(entry.user.id)) {
                    None => (raised, Some(ErrorKind::Database)),
                    Some(account) => match parsed_date(scrum.scrum_date, scrum_date_format()) {
                        None => (raised, Some(ErrorKind::DateTimeParse)),
                        Some((year, month, day)) => credit_account_spec(
                            raised,
                            account,
                            cents,
                            reward_memo(date_text(year, month, day)),
                            time,
                        ),
                    },
                }
            }
        },
    }
}

/// The store once the scrum is settled with the participants of `entries`,
/// one after the other, up to the first with whom that failed.
pub open spec fn settle_all_spec(
    db: StorageView,
    entries: Seq<AvailabilityView>,
    scrum: ScrumView,
    time: int,
) -> (StorageView, Option<ErrorKind>)
    decreases entries.len(),
{
    if entries.len() == 0 {
        (db, None)
    } else {
        let (settled, refused) = settle_all_spec(db, entries.drop_last(), scrum, time);
        if refused is Some {
            (settled, refused)
        } else {
            settle_spec(settled, entries.last(), scrum, time)
        }
    }
}

/// The store and the channel after [`close_scrum`], and the kind of failure
/// if it failed.
///
/// The scrum's row is closed, the poll gives way to the notice that voting
/// is closed, the outcome is posted, and the scrum is settled with every
/// participant of the tally. The first step that fails ends the closing;
/// what was done before it stays done.
pub open spec fn close_scrum_spec(
    db: StorageView,
    channel: ChannelView,
    scrum: ScrumView,
    reactions: ParsedView,
    status: ScrumStatus,
    time: int,
) -> (StorageView, ChannelView, Option<ErrorKind>) {
    let shut = StorageView { scrums: closed(db.scrums, scrum.id), ..db };
    match u64_of_text(scrum.message_id) {
        None => (shut, channel, Some(ErrorKind::IdParse)),
        Some(poll) => {
            let (noticed, edit_failure) = channel.edit(poll, closed_text());
            let (told, post_failure) = noticed.send_message(close_notif_text(reactions, status));
            let (settled, settle_failure) = settle_all_spec(
                shut,
                reactions.availability,
                scrum,
                time,
            );
            if edit_failure is Some {
                (shut, noticed, edit_failure)
            } else if post_failure is Some {
                (shut, told, post_failure)
            } else {
                (settled, told, settle_failure)
            }
        },
    }
}

fn settle(db: &mut Storage, entry: &Availability, scrum: &Scrum, now: &LocalDateTime) -> (res: Result<
    (),
    Error,
>)
    ensures
        (final(db)@, failure(res)) == settle_spec(old(db)@, entry@, scrum@, now.timestamp as int),
{
    let reward = match settlement_for(entry) {
        Ok(Settlement::Reward { amount }) => amount,
        Ok(Settlement::Reset) => {
            return clear_streak(db, entry.user.id);
        },
        Err(err) => {
            return Err(err);
        },
    };
    match increment_streak(db, entry.user.id) {
        Ok(()) => {},
        Err(err) => {
            return Err(err);
        },
    }
    let user_account = match get_user_account(db, &entry.user) {
        Ok(account) => account,
        Err(err) => {
            return Err(err);
        },
    };
    let memo = match scrum_reward_memo(scrum) {
        Ok(memo) => memo,
        Err(err) => {
            return Err(err);
        },
    };
    credit_account(db, &user_account, reward, &memo, now)
}

/// Closes the scrum `scrum` under the tally `reactions` and the outcome
/// `scrum_status`, and settles it with every participant.
#[verifier::loop_isolation(false)]
pub fn close_scrum(
    db: &mut Storage,
    channel: &mut Channel,
    scrum: &Scrum,
    reactions: &ParsedScrumReacts,
    scrum_status: ScrumStatus,
    now: &LocalDateTime,
) -> (res: Result<(), Error>)
    ensures
        (final(db)@, final(channel)@, failure(res)) == close_scrum_spec(
            old(db)@,
            old(channel)@,
            scrum@,
            reactions@,
            scrum_status,
            now.timestamp as int,
        ),
{
    mark_closed(db, scrum.id);
    let message_id = match scrum.message_id() {
        Ok(id) => id,
        Err(err) => {
            return Err(err);
        },
    };
    match channel.edit(message_id, scrum_closed_message()) {
        Ok(()) => {},
        Err(err) => {
            return Err(err);
        },
    }
    let msg = format_scrum_close_notif(reactions, scrum_status);
    match channel.send_message(msg.as_str()) {
        Ok(_) => {},
        Err(err) => {
            return Err(err);
        },
    }
    let ghost shut = db@;
    let ghost entries = reactions@.availability;
    let mut i: usize = 0;
    assert(entries.take(0) =~= Seq::<AvailabilityView>::empty());
    while i < reactions.availability.len()
        invariant
            i <= reactions.availability.len(),
            entries == reactions@.availability,
            (db@, None::<ErrorKind>) == settle_all_spec(
                shut,
                entries.take(i as int),
                scrum@,
                now.timestamp as int,
            ),
        decreases reactions.availability.len() - i,
    {
        proof {
            assert(entries.take(i + 1).drop_last() =~= entries.take(i as int));
            assert(entries.take(i + 1).last() == reactions.availability@[i as int]@);
        }
        let ghost before = db@;
        match settle(db, &reactions.availability[i], scrum, now) {
            Ok(()) => {},
            Err(err) => {
                proof {
                    assert(settle_all_spec(
                        shut,
                        entries.take(i + 1),
                        scrum@,
                        now.timestamp as int,
                    ) == settle_spec(
                        before,
                        entries.take(i + 1).last(),
                        scrum@,
                        now.timestamp as int,
                    ));
                    lemma_settle_all_stops(
                        shut,
                        entries,
                        scrum@,
                        now.timestamp as int,
                        i as int + 1,
                    );
                }
                return Err(err);
            },
        }
        i += 1;
    }
    assert(entries.take(i as int) =~= entries);
    Ok(())
}

/// Once settling has failed with one participant, it goes no further: the
/// participants that follow change nothing.
pub proof fn lemma_settle_all_stops(
    db: StorageView,
    entries: Seq<AvailabilityView>,
    scrum: ScrumView,
    time: int,
    n: int,
)
    requires
        0 <= n <= entries.len(),
        settle_all_spec(db, entries.take(n), scrum, time).1 is Some,
    ensures
        settle_all_spec(db, entries, scrum, time) == settle_all_spec(
            db,
            entries.take(n),
            scrum,
            time,
        ),
    decreases entries.len() - n,
{
    if n < entries.len() {
        assert(entries.take(n + 1).drop_last() =~= entries.take(n));
        lemma_settle_all_stops(db, entries, scrum, time, n + 1);
    } else {
        assert(entries.take(n) =~= entries);
    }
}



/// The streak that a user who starts at `streak` has once a scrum is
/// settled with the participants of `entries`, one after the other: every
/// answer of the user raises it by one, and every silence puts it back to zero.
pub open spec fn streak_after(entries: Seq<AvailabilityView>, id: int, streak: int) -> int
    decreases entries.len(),
{
    if entries.len() == 0 {
        streak
    } else if entries.last().user.id != id {
        streak_after(entries.drop_last(), id, streak)
    } else if entries.last().react == ScrumReact::Unknown {
        0
    } else {
        streak_after(entries.drop_last(), id, streak) + 1
    }
}

/// How many of `entries` are owed a reward.
pub open spec fn rewarded(entries: Seq<AvailabilityView>) -> nat
    decreases entries.len(),
{
    if entries.len() == 0 {
        0
    } else {
        rewarded(entries.drop_last()) + if entries.last().react == ScrumReact::Unknown {
            0nat
        } else {
            1nat
        }
    }
}

/// Settling a scrum with all its participants leaves every user in place,
/// with the same name, and gives each the streak that the answers call
/// for. It writes one row to the log for every participant that answered.
pub proof fn lemma_settled_streaks(
    db: StorageView,
    entries: Seq<AvailabilityView>,
    scrum: ScrumView,
    time: int,
)
    requires
        settle_all_spec(db, entries, scrum, time).1 is None,
    ensures
        settle_all_spec(db, entries, scrum, time).0.users.len() == db.users.len(),
        forall|i: int|
            0 <= i < db.users.len() ==> {
                let after = (#[trigger] settle_all_spec(db, entries, scrum, time).0.users[i]);
                &&& after.id == db.users[i].id
                &&& after.display_name == db.users[i].display_name
                &&& after.streak == streak_after(entries, db.users[i].id, db.users[i].streak)
            },
        settle_all_spec(db, entries, scrum, time).0.ugocoin_tx_logs.len()
            == db.ugocoin_tx_logs.len() + rewarded(entries),
    decreases entries.len(),
{
    if entries.len() > 0 {
        let front = entries.drop_last();
        let (settled, refused) = settle_all_spec(db, front, scrum, time);
        lemma_settled_streaks(db, front, scrum, time);
        let after = settle_spec(settled, entries.last(), scrum, time).0;
        assert forall|i: int| 0 <= i < db.users.len() implies {
            let row = (#[trigger] settle_all_spec(db, entries, scrum, time).0.users[i]);
            &&& row.id == db.users[i].id
            &&& row.display_name == db.users[i].display_name
            &&& row.streak == streak_after(entries, db.users[i].id, db.users[i].streak)
        } by {
            assert(settled.users[i].id == db.users[i].id);
            assert(after.users[i].id == db.users[i].id);
        }
    }
}

/// Where a tally lists nobody twice, closing gives every listed user who
/// answered the old streak and one, and every listed user who did not
/// answer the streak zero, as far as the store knew the users' streaks when
/// the tally was taken.
pub proof fn lemma_streak_of_listed(entries: Seq<AvailabilityView>, j: int, streak: int)
    requires
        0 <= j < entries.len(),
        forall|a: int, b: int|
            0 <= a < b < entries.len() ==> (#[trigger] entries[a]).user.id != (
            #[trigger] entries[b]).user.id,
    ensures
        streak_after(entries, entries[j].user.id, streak) == (if entries[j].react
            == ScrumReact::Unknown {
            0
        } else {
            streak + 1
        }),
    decreases entries.len(),
{
    let front = entries.drop_last();
    let id = entries[j].user.id;
    if j == entries.len() - 1 {
        lemma_streak_untouched(front, id, streak);
    } else {
        assert(entries[j].user.id != entries[entries.len() - 1].user.id);
        assert(front[j] == entries[j]);
        lemma_streak_of_listed(front, j, streak);
    }
}

/// Who is not listed keeps the streak.
pub proof fn lemma_streak_untouched(entries: Seq<AvailabilityView>, id: int, streak: int)
    requires
        forall|a: int| 0 <= a < entries.len() ==> (#[trigger] entries[a]).user.id != id,
    ensures
        streak_after(entries, id, streak) == streak,
    decreases entries.len(),
{
    if entries.len() > 0 {
        let front = entries.drop_last();
        assert(entries[entries.len() - 1].user.id != id);
        assert forall|a: int| 0 <= a < front.len() implies (#[trigger] front[a]).user.id != id by {
            assert(front[a] == entries[a]);
        }
        lemma_streak_untouched(front, id, streak);
    }
}

/// Whether every account has an id of its own.
pub open spec fn ids_apart(accounts: Seq<AccountView>) -> bool {
    forall|i: int, j: int|
        0 <= i < j < accounts.len() ==> (#[trigger] accounts[i]).id != (#[trigger] accounts[j]).id
}

proof fn lemma_found_holds_once(accounts: Seq<AccountView>, owner: Option<int>)
    requires
        ids_apart(accounts),
        find_account(accounts, owner) is Some,
    ensures
        holds_once(accounts, find_account(accounts, owner).unwrap().id),
{
    let k = choose|k: int| is_account_of(accounts, owner, k);
    assert(accounts[k].id == find_account(accounts, owner).unwrap().id);
    assert forall|j: int| 0 <= j < accounts.len() && j != k implies (#[trigger] accounts[j]).id
        != accounts[k].id by {
        if j < k {
            assert(accounts[j].id != accounts[k].id);
        } else {
            assert(accounts[k].id != accounts[j].id);
        }
    }
}

/// Rewards are paid out of the central bank, not made: where every account
/// has an id of its own, settling a scrum leaves the sum of all balances as
/// it was, whether it goes through or stops on the way.
pub proof fn lemma_settling_conserves_total(
    db: StorageView,
    entries: Seq<AvailabilityView>,
    scrum: ScrumView,
    time: int,
)
    requires
        ids_apart(db.ugocoin_accounts),
    ensures
        total(settle_all_spec(db, entries, scrum, time).0.ugocoin_accounts) == total(
            db.ugocoin_accounts,
        ),
    decreases entries.len(),
{
    if entries.len() > 0 {
        let front = entries.drop_last();
        let (settled, refused) = settle_all_spec(db, front, scrum, time);
        lemma_settling_conserves_total(db, front, scrum, time);
        lemma_settle_all_frame(db, front, scrum, time);
        if refused is None {
            let entry = entries.last();
            assert forall|i: int, j: int| 0 <= i < j < settled.ugocoin_accounts.len() implies (
            #[trigger] settled.ugocoin_accounts[i]).id != (
            #[trigger] settled.ugocoin_accounts[j]).id by {
                assert(db.ugocoin_accounts[i].id != db.ugocoin_accounts[j].id);
            }
            match settlement_spec(entry) {
                Some(SettlementView::Reward { cents }) => {
                    let accounts = settled.ugocoin_accounts;
                    match (find_account(accounts, Some(entry.user.id)), find_account(accounts, None)) {
                        (Some(account), Some(central)) => {
                            lemma_found_holds_once(accounts, Some(entry.user.id));
                            lemma_found_holds_once(accounts, None);
                            let raised = StorageView {
                                users: incremented(settled.users, entry.user.id),
                                ..settled
                            };
                            match parsed_date(scrum.scrum_date, scrum_date_format()) {
                                Some((year, month, day)) => {
                                    lemma_transfer_conserves_total(
                                        raised,
                                        central,
                                        account,
                                        cents,
                                        reward_memo(date_text(year, month, day)),
                                        time,
                                    );
                                },
                                None => {},
                            }
                        },
                        _ => {},
                    }
                },
                _ => {},
            }
        }
    }
}

} // verus!
