//! What holds of the store whatever the bot does.

use vstd::prelude::*;

use crate::bot::job_poll_spec;
use crate::bot::on_react_spec;
use crate::channel::lemma_message_index_last;
use crate::channel::ChannelView;
use crate::channel::Marker;
use crate::channel::MessageView;
use crate::datetime::LocalDateTime;
use crate::error::ErrorKind;
use crate::scrum::close::close_scrum_spec;
use crate::scrum::table::closed;
use crate::scrum::table::create_scrum_row_spec;
use crate::scrum::table::find_scrum;
use crate::scrum::table::is_scrum_at;
use crate::scrum::open::notify_scrum_spec;
use crate::scrum::notify_text;
use crate::scrum::table::of_message;
use crate::scrum::table::on_date;
use crate::scrum::reactions::parse_scrum_reactions_spec;
use crate::scrum::status_of;
use crate::scrum::SCRUM_CLOSE_HOUR;
use crate::scrum::close::settle_all_spec;
use crate::scrum::close::settle_spec;
use crate::scrum::AvailabilityView;
use crate::scrum::ParsedView;
use crate::scrum::ScrumStatus;
use crate::scrum::ScrumView;
use crate::scrum_resp::answers;
use crate::scrum_resp::has_response;
use crate::scrum_resp::parse_react_spec;
use crate::scrum_resp::respond_scrum_spec;
use crate::scrum_resp::retracted;
use crate::scrum_resp::unrespond_scrum_spec;
use crate::scrum_resp::Reaction;
use crate::scrum_resp::ScrumReactView;
use crate::scrum_resp::ScrumResponse;
use crate::storage::Storage;
use crate::storage::StorageView;
use crate::text::decimal;
use crate::text::u64_of_text;
use crate::user::is_user_of;
use crate::ugocoin::account::AccountView;

verus! {

/// Whether no two scrums are of the same day.
pub open spec fn days_apart(scrums: Seq<ScrumView>) -> bool {
    forall|i: int, j: int|
        0 <= i < j < scrums.len() ==> (#[trigger] scrums[i]).scrum_date != (
        #[trigger] scrums[j]).scrum_date
}

/// Whether no user has two answers to one scrum on record.
pub open spec fn answers_apart(rows: Seq<ScrumResponse>) -> bool {
    forall|i: int, j: int|
        0 <= i < j < rows.len() ==> !answers(
            #[trigger] rows[i],
            (#[trigger] rows[j]).scrum_id as int,
            rows[j].user_id as int,
        )
}

/// Whether exactly one account is the central bank's.
pub open spec fn one_central_bank(accounts: Seq<AccountView>) -> bool {
    exists|k: int|
        0 <= k < accounts.len() && (#[trigger] accounts[k]).user_id is None && forall|j: int|
            0 <= j < accounts.len() && j != k ==> (#[trigger] accounts[j]).user_id is Some
}

/// What the store holds to at all times: a day has one scrum at most, a
/// user has one answer to a scrum at most, and there is one central bank.
pub open spec fn holds(db: StorageView) -> bool {
    &&& days_apart(db.scrums)
    &&& answers_apart(db.scrum_responses)
    &&& one_central_bank(db.ugocoin_accounts)
}

/// Whether the scrums of `before` are still there in `after`, each with its
/// id, day and poll, and none that was closed is open again.
pub open spec fn never_reopened(before: Seq<ScrumView>, after: Seq<ScrumView>) -> bool {
    &&& before.len() <= after.len()
    &&& forall|i: int|
        0 <= i < before.len() ==> {
            &&& (#[trigger] after[i]).id == before[i].id
            &&& after[i].scrum_date == before[i].scrum_date
            &&& after[i].message_id == before[i].message_id
            &&& after[i].is_open ==> before[i].is_open
        }
}

/// Whether the accounts of `after` are those of `before` but for their balances.
pub open spec fn accounts_alike(before: Seq<AccountView>, after: Seq<AccountView>) -> bool {
    &&& before.len() == after.len()
    &&& forall|i: int|
        0 <= i < before.len() ==> (#[trigger] after[i]).id == before[i].id && after[i].user_id
            == before[i].user_id
}

/// Whether a step from `before` to `after` leaves the rules of the store in
/// force and reopens no scrum.
pub open spec fn sound_step(before: StorageView, after: StorageView) -> bool {
    &&& holds(before) ==> holds(after)
    &&& never_reopened(before.scrums, after.scrums)
}

proof fn lemma_central_bank_stays(before: Seq<AccountView>, after: Seq<AccountView>)
    requires
        accounts_alike(before, after),
        one_central_bank(before),
    ensures
        one_central_bank(after),
{
    let k = choose|k: int|
        0 <= k < before.len() && (#[trigger] before[k]).user_id is None && forall|j: int|
            0 <= j < before.len() && j != k ==> (#[trigger] before[j]).user_id is Some;
    assert(after[k].user_id is None);
    assert forall|j: int| 0 <= j < after.len() && j != k implies (
    #[trigger] after[j]).user_id is Some by {
        assert(before[j].user_id is Some);
    }
}

proof fn lemma_closed_sound(scrums: Seq<ScrumView>, id: int)
    ensures
        never_reopened(scrums, closed(scrums, id)),
        days_apart(scrums) ==> days_apart(closed(scrums, id)),
{
    let after = closed(scrums, id);
    if days_apart(scrums) {
        assert forall|i: int, j: int| 0 <= i < j < after.len() implies (
        #[trigger] after[i]).scrum_date != (#[trigger] after[j]).scrum_date by {
            assert(scrums[i].scrum_date != scrums[j].scrum_date);
        }
    }
}

/// Settling a scrum with one participant touches neither the scrums nor the
/// answers, and of the accounts only the balances.
pub proof fn lemma_settle_frame(
    db: StorageView,
    entry: AvailabilityView,
    scrum: ScrumView,
    time: int,
)
    ensures
        settle_spec(db, entry, scrum, time).0.scrums == db.scrums,
        settle_spec(db, entry, scrum, time).0.scrum_responses == db.scrum_responses,
        accounts_alike(db.ugocoin_accounts, settle_spec(db, entry, scrum, time).0.ugocoin_accounts),
{
}

/// Settling a scrum with all its participants touches neither the scrums
/// nor the answers, and of the accounts only the balances.
pub proof fn lemma_settle_all_frame(
    db: StorageView,
    entries: Seq<AvailabilityView>,
    scrum: ScrumView,
    time: int,
)
    ensures
        settle_all_spec(db, entries, scrum, time).0.scrums == db.scrums,
        settle_all_spec(db, entries, scrum, time).0.scrum_responses == db.scrum_responses,
        accounts_alike(
            db.ugocoin_accounts,
            settle_all_spec(db, entries, scrum, time).0.ugocoin_accounts,
        ),
    decreases entries.len(),
{
    if entries.len() > 0 {
        lemma_settle_all_frame(db, entries.drop_last(), scrum, time);
        let (settled, refused) = settle_all_spec(db, entries.drop_last(), scrum, time);
        if refused is None {
            lemma_settle_frame(settled, entries.last(), scrum, time);
        }
    }
}

/// Closing a scrum leaves the rules of the store in force and reopens no scrum.
pub proof fn lemma_close_sound(
    db: StorageView,
    channel: ChannelView,
    scrum: ScrumView,
    reactions: ParsedView,
    status: ScrumStatus,
    time: int,
)
    ensures
        sound_step(db, close_scrum_spec(db, channel, scrum, reactions, status, time).0),
        close_scrum_spec(db, channel, scrum, reactions, status, time).0.scrums == closed(
            db.scrums,
            scrum.id,
        ),
{
    let shut = StorageView { scrums: closed(db.scrums, scrum.id), ..db };
    lemma_closed_sound(db.scrums, scrum.id);
    lemma_settle_all_frame(shut, reactions.availability, scrum, time);
    let after = close_scrum_spec(db, channel, scrum, reactions, status, time).0;
    assert(accounts_alike(db.ugocoin_accounts, after.ugocoin_accounts));
    if holds(db) {
        lemma_central_bank_stays(db.ugocoin_accounts, after.ugocoin_accounts);
    }
}

proof fn lemma_no_scrum_on(scrums: Seq<ScrumView>, date: Seq<char>)
    requires
        find_scrum(scrums, on_date(date)) is None,
    ensures
        forall|i: int| 0 <= i < scrums.len() ==> (#[trigger] scrums[i]).scrum_date != date,
    decreases scrums.len(),
{
    if exists|i: int| 0 <= i < scrums.len() && (#[trigger] scrums[i]).scrum_date == date {
        let i = choose|i: int| 0 <= i < scrums.len() && (#[trigger] scrums[i]).scrum_date == date;
        lemma_first_scrum_on(scrums, date, i);
    }
}

proof fn lemma_first_scrum_on(scrums: Seq<ScrumView>, date: Seq<char>, i: int)
    requires
        0 <= i < scrums.len(),
        scrums[i].scrum_date == date,
    ensures
        find_scrum(scrums, on_date(date)) is Some,
    decreases i,
{
    if exists|j: int| 0 <= j < i && (#[trigger] scrums[j]).scrum_date == date {
        let j = choose|j: int| 0 <= j < i && (#[trigger] scrums[j]).scrum_date == date;
        lemma_first_scrum_on(scrums, date, j);
    } else {
        assert(on_date(date)(scrums[i]));
        assert(is_scrum_at(scrums, on_date(date), i));
    }
}

/// Writing the row of a new scrum leaves the rules of the store in force and
/// reopens no scrum.
pub proof fn lemma_create_scrum_row_sound(db: StorageView, date: Seq<char>, message_id: u64)
    ensures
        sound_step(db, create_scrum_row_spec(db, date, message_id).0),
{
    let (after, refused) = create_scrum_row_spec(db, date, message_id);
    if refused is None {
        lemma_no_scrum_on(db.scrums, date);
        if days_apart(db.scrums) {
            assert forall|i: int, j: int| 0 <= i < j < after.scrums.len() implies (
            #[trigger] after.scrums[i]).scrum_date != (#[trigger] after.scrums[j]).scrum_date by {
                if j < db.scrums.len() {
                    assert(db.scrums[i].scrum_date != db.scrums[j].scrum_date);
                } else {
                    assert(db.scrums[i].scrum_date != date);
                }
            }
        }
    }
}

/// A day's scrum is opened once at most: once its row is written, a second
/// row for the day is refused, and the store stays as it is.
pub proof fn lemma_scrum_opens_once(db: StorageView, date: Seq<char>, first: u64, second: u64)
    requires
        create_scrum_row_spec(db, date, first).1 is None,
    ensures
        create_scrum_row_spec(create_scrum_row_spec(db, date, first).0, date, second) == (
            create_scrum_row_spec(db, date, first).0,
            Some(ErrorKind::Database),
        ),
{
    let after = create_scrum_row_spec(db, date, first).0;
    lemma_first_scrum_on(after.scrums, date, db.scrums.len() as int);
}

/// Opening a scrum leaves the rules of the store in force and reopens no scrum.
pub proof fn lemma_notify_sound(db: StorageView, channel: ChannelView, date: Seq<char>)
    ensures
        sound_step(db, notify_scrum_spec(db, channel, date).0),
{
    lemma_create_scrum_row_sound(db, date, channel.next_id);
}

/// On a channel that can take a message, opening succeeds exactly where the
/// day has no scrum yet and the scrums table can take a row. Then the
/// channel has one message more, the poll with its two markers and nobody
/// behind them, and the table has one row more, the open scrum of the day
/// with that poll. Where opening fails, the messages stay as they were.
pub proof fn lemma_notify_outcome(db: StorageView, channel: ChannelView, date: Seq<char>)
    requires
        channel.wf(),
        channel.next_id < u64::MAX,
    ensures
        ({
            let (opened, polling, refused) = notify_scrum_spec(db, channel, date);
            let poll = MessageView {
                accept_attached: true,
                decline_attached: true,
                ..MessageView::posted(channel.next_id, notify_text())
            };
            &&& refused is None <==> find_scrum(db.scrums, on_date(date)) is None
                && db.scrums.len() < i64::MAX
            &&& refused is None ==> polling.messages == channel.messages.push(poll) && opened
                == create_scrum_row_spec(db, date, channel.next_id).0
            &&& refused is Some ==> refused == Some(ErrorKind::Database) && opened == db
                && polling.messages == channel.messages
            &&& polling.next_id == channel.next_id + 1
        }),
{
    let poll = channel.next_id;
    let posted = channel.send_message(notify_text()).0;
    lemma_message_index_last(posted.messages, poll);
    let accepting = posted.react(poll, Marker::Accept).0;
    lemma_message_index_last(accepting.messages, poll);
    let polling = accepting.react(poll, Marker::Decline).0;
    lemma_message_index_last(polling.messages, poll);
    let wanted = MessageView {
        accept_attached: true,
        decline_attached: true,
        ..MessageView::posted(channel.next_id, notify_text())
    };
    assert(polling.messages =~= channel.messages.push(wanted));
    assert(polling.delete(poll).0.messages =~= channel.messages);
}

/// Once a day's scrum is open, trying to open it again changes nothing:
/// the second poll is posted, refused by the store and taken back, so that
/// the store and the messages of the channel stay as they are.
pub proof fn lemma_notify_retry(db: StorageView, channel: ChannelView, date: Seq<char>)
    requires
        channel.wf(),
        notify_scrum_spec(db, channel, date).2 is None,
    ensures
        ({
            let (opened, polling, _) = notify_scrum_spec(db, channel, date);
            let (again, after, refused) = notify_scrum_spec(opened, polling, date);
            &&& again == opened
            &&& refused is Some
            &&& after.messages == polling.messages
        }),
{
    let (opened, polling, _) = notify_scrum_spec(db, channel, date);
    let poll = channel.next_id;
    let posted = channel.send_message(notify_text()).0;
    lemma_message_index_last(posted.messages, poll);
    let accepting = posted.react(poll, Marker::Accept).0;
    lemma_message_index_last(accepting.messages, poll);
    assert(polling == accepting.react(poll, Marker::Decline).0);
    assert(polling.next_id == poll + 1);
    assert forall|i: int| 0 <= i < polling.messages.len() implies (
    #[trigger] polling.messages[i]).id < polling.next_id by {
        if i < channel.messages.len() {
            assert(polling.messages[i] == channel.messages[i]);
        }
    }
    assert(opened == create_scrum_row_spec(db, date, poll).0);
    lemma_scrum_opens_once(db, date, poll, polling.next_id);
    if polling.next_id < u64::MAX {
        let second = polling.next_id;
        let posted2 = polling.send_message(notify_text()).0;
        lemma_message_index_last(posted2.messages, second);
        let accepting2 = posted2.react(second, Marker::Accept).0;
        lemma_message_index_last(accepting2.messages, second);
        let polling2 = accepting2.react(second, Marker::Decline).0;
        lemma_message_index_last(polling2.messages, second);
        let retracted2 = polling2.delete(second).0;
        assert(retracted2.messages =~= polling.messages);
    }
}

proof fn lemma_retracted_apart(rows: Seq<ScrumResponse>, scrum_id: int, user_id: int, available: bool)
    ensures
        forall|i: int|
            0 <= i < retracted(rows, scrum_id, user_id, available).len() ==> exists|j: int|
                0 <= j < rows.len() && #[trigger] rows[j] == (#[trigger] retracted(
                    rows,
                    scrum_id,
                    user_id,
                    available,
                )[i]),
        answers_apart(rows) ==> answers_apart(retracted(rows, scrum_id, user_id, available)),
    decreases rows.len(),
{
    let kept = retracted(rows, scrum_id, user_id, available);
    if rows.len() > 0 {
        let front = rows.drop_last();
        let inner = retracted(front, scrum_id, user_id, available);
        lemma_retracted_apart(front, scrum_id, user_id, available);
        assert forall|i: int| 0 <= i < kept.len() implies exists|j: int|
            0 <= j < rows.len() && #[trigger] rows[j] == (#[trigger] kept[i]) by {
            if i < inner.len() {
                assert(kept[i] == inner[i]);
                let j = choose|j: int| 0 <= j < front.len() && #[trigger] front[j] == inner[i];
                assert(rows[j] == kept[i]);
            } else {
                assert(rows[rows.len() - 1] == kept[i]);
            }
        }
        if answers_apart(rows) {
            assert forall|i: int, j: int| 0 <= i < j < front.len() implies !answers(
                #[trigger] front[i],
                (#[trigger] front[j]).scrum_id as int,
                front[j].user_id as int,
            ) by {
                assert(front[i] == rows[i] && front[j] == rows[j]);
            }
            assert forall|i: int, j: int| 0 <= i < j < kept.len() implies !answers(
                #[trigger] kept[i],
                (#[trigger] kept[j]).scrum_id as int,
                kept[j].user_id as int,
            ) by {
                if j < inner.len() {
                    assert(kept[i] == inner[i] && kept[j] == inner[j]);
                } else {
                    assert(kept[i] == inner[i]);
                    let k = choose|k: int| 0 <= k < front.len() && #[trigger] front[k] == inner[i];
                    assert(rows[k] == kept[i]);
                    assert(kept[j] == rows[rows.len() - 1]);
                }
            }
        }
    }
}

/// Putting an answer on record leaves the rules of the store in force and
/// touches no scrum.
pub proof fn lemma_respond_sound(db: StorageView, react: ScrumReactView, time: i64)
    requires
        i64::MIN <= react.scrum.id <= i64::MAX,
        i64::MIN <= react.user.id <= i64::MAX,
    ensures
        sound_step(db, respond_scrum_spec(db, react, time)),
        respond_scrum_spec(db, react, time).scrums == db.scrums,
{
    let after = respond_scrum_spec(db, react, time);
    let rows = db.scrum_responses;
    if answers_apart(rows) {
        if has_response(rows, react.scrum.id, react.user.id) {
            assert forall|i: int, j: int| 0 <= i < j < after.scrum_responses.len() implies !answers(
                #[trigger] after.scrum_responses[i],
                (#[trigger] after.scrum_responses[j]).scrum_id as int,
                after.scrum_responses[j].user_id as int,
            ) by {
                assert(!answers(rows[i], rows[j].scrum_id as int, rows[j].user_id as int));
            }
        } else {
            assert forall|i: int, j: int| 0 <= i < j < after.scrum_responses.len() implies !answers(
                #[trigger] after.scrum_responses[i],
                (#[trigger] after.scrum_responses[j]).scrum_id as int,
                after.scrum_responses[j].user_id as int,
            ) by {
                if j < rows.len() {
                    assert(!answers(rows[i], rows[j].scrum_id as int, rows[j].user_id as int));
                } else {
                    assert(!answers(rows[i], react.scrum.id, react.user.id));
                }
            }
        }
    }
}

/// Taking an answer off the record leaves the rules of the store in force
/// and touches no scrum.
pub proof fn lemma_unrespond_sound(db: StorageView, react: ScrumReactView)
    ensures
        sound_step(db, unrespond_scrum_spec(db, react)),
        unrespond_scrum_spec(db, react).scrums == db.scrums,
{
    lemma_retracted_apart(db.scrum_responses, react.scrum.id, react.user.id, react.available);
}

/// Whether every id of a scrum or a user is a number that a row can hold,
/// as it is in every store.
pub open spec fn representable(db: StorageView) -> bool {
    &&& forall|i: int|
        0 <= i < db.scrums.len() ==> i64::MIN <= (#[trigger] db.scrums[i]).id <= i64::MAX
    &&& forall|i: int|
        0 <= i < db.users.len() ==> i64::MIN <= (#[trigger] db.users[i]).id <= i64::MAX
}

/// What a store shows in contracts is representable.
pub proof fn lemma_store_representable(db: Storage)
    ensures
        representable(db@),
{
}

/// A tick of the timer leaves the rules of the store in force and reopens no scrum.
pub proof fn lemma_job_poll_sound(db: StorageView, channel: ChannelView, now: LocalDateTime)
    ensures
        sound_step(db, job_poll_spec(db, channel, now).0),
{
    match find_scrum(db.scrums, on_date(now.date.text())) {
        None => {
            lemma_notify_sound(db, channel, now.date.text());
        },
        Some(scrum) => {
            if scrum.is_open && now.hour >= SCRUM_CLOSE_HOUR {
                match u64_of_text(scrum.message_id) {
                    None => {},
                    Some(poll) => match parse_scrum_reactions_spec(db, channel, poll) {
                        None => {},
                        Some(tally) => {
                            lemma_close_sound(
                                db,
                                channel,
                                scrum,
                                tally,
                                status_of(tally.num_available as int, tally.num_unavailable as int),
                                now.timestamp as int,
                            );
                        },
                    },
                }
            }
        },
    }
}

/// Taking note of a reaction leaves the rules of the store in force and
/// reopens no scrum.
pub proof fn lemma_on_react_sound(
    db: StorageView,
    channel: ChannelView,
    react: Reaction,
    added: bool,
    now: LocalDateTime,
)
    requires
        representable(db),
    ensures
        sound_step(db, on_react_spec(db, channel, react, added, now).0),
{
    let wanted = of_message(decimal(react.message_id as nat));
    match find_scrum(db.scrums, wanted) {
        None => {},
        Some(scrum) => {
            let k = choose|k: int| is_scrum_at(db.scrums, wanted, k);
            assert(scrum == db.scrums[k]);
            let recorded = match parse_react_spec(db, react) {
                Some(answer) => {
                    assert(answer.scrum == scrum);
                    let actor = react.user_id.unwrap();
                    let u = choose|u: int|
                        is_user_of(db.users, db.users_discord_ids, actor, u);
                    assert(answer.user == db.users[u]);
                    if added {
                        lemma_respond_sound(db, answer, now.timestamp);
                        respond_scrum_spec(db, answer, now.timestamp)
                    } else {
                        lemma_unrespond_sound(db, answer);
                        unrespond_scrum_spec(db, answer)
                    }
                },
                None => db,
            };
            assert(sound_step(db, recorded));
            assert(recorded.scrums == db.scrums);
            match parse_scrum_reactions_spec(recorded, channel, react.message_id) {
                None => {},
                Some(tally) => {
                    let status = status_of(
                        tally.num_available as int,
                        tally.num_unavailable as int,
                    );
                    lemma_close_sound(
                        recorded,
                        channel,
                        scrum,
                        tally,
                        status,
                        now.timestamp as int,
                    );
                },
            }
        },
    }
}

} // verus!
