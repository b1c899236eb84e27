use vstd::prelude::*;
use vstd::string::StringExecFns;

use crate::datetime::LocalDateTime;
use crate::error::database_error;
use crate::error::failure;
use crate::error::Error;
use crate::error::ErrorKind;
use crate::error::InnerError;
use crate::scrum::table::find_scrum;
use crate::scrum::table::get_scrum_from_message;
use crate::scrum::table::of_message;
use crate::scrum::Scrum;
use crate::scrum::ScrumView;
use crate::storage::Storage;
use crate::storage::StorageView;
use crate::text::decimal;
use crate::user::find_user;
use crate::user::get_user;
use crate::user::User;
use crate::user::UserView;

verus! {

/// One row of the responses table: what a user answered to a scrum, and when.
#[derive(Debug, Clone, Copy, PartialEq, Eq, Structural)]
pub struct ScrumResponse {
    pub scrum_id: i64,
    pub user_id: i64,
    pub available: bool,
    /// Seconds since the Unix epoch.
    pub response_time: i64,
}

/// The emoji of a reaction: one of Unicode, by its text, or one that a guild
/// made for itself.
#[derive(Debug)]
pub enum ReactionEmoji {
    Unicode(String),
    Custom,
}

/// A reaction that was put on a message or taken off it.
#[derive(Debug)]
pub struct Reaction {
    pub emoji: ReactionEmoji,
    pub message_id: u64,
    /// The chat identity that reacted; none where no user did.
    pub user_id: Option<u64>,
}

/// An answer to a scrum: who says what of which scrum.
#[derive(Debug)]
pub struct ScrumReact {
    pub available: bool,
    pub user: User,
    pub scrum: Scrum,
}

/// What a [`ScrumReact`] is in contracts.
pub struct ScrumReactView {
    pub available: bool,
    pub user: UserView,
    pub scrum: ScrumView,
}

impl View for ScrumReact {
    type V = ScrumReactView;

    open spec fn view(&self) -> ScrumReactView {
        ScrumReactView { available: self.available, user: self.user@, scrum: self.scrum@ }
    }
}

/// The emoji that says "available".
pub open spec fn accept_emoji() -> Seq<char> {
    "\u{1F44D}"@
}

/// The emoji that says "unavailable".
pub open spec fn decline_emoji() -> Seq<char> {
    "\u{1F44E}"@
}

/// The emoji that says "available".
pub fn scrum_accept_emoji() -> (emoji: &'static str)
    ensures
        emoji@ == accept_emoji(),
{
    "\u{1F44D}"
}

/// The emoji that says "unavailable".
pub fn scrum_decline_emoji() -> (emoji: &'static str)
    ensures
        emoji@ == decline_emoji(),
{
    "\u{1F44E}"
}

/// What an emoji says of availability, if it says anything of it.
pub open spec fn availability_of(emoji: ReactionEmoji) -> Option<bool> {
    match emoji {
        ReactionEmoji::Unicode(text) => if text@ == accept_emoji() {
            Some(true)
        } else if text@ == decline_emoji() {
            Some(false)
        } else {
            None
        },
        ReactionEmoji::Custom => None,
    }
}

/// Whether `row` is the answer of the user `user_id` to the scrum `scrum_id`.
pub open spec fn answers(row: ScrumResponse, scrum_id: int, user_id: int) -> bool {
    row.scrum_id == scrum_id && row.user_id == user_id
}

/// Whether the user `user_id` has an answer to the scrum `scrum_id` on record.
pub open spec fn has_response(rows: Seq<ScrumResponse>, scrum_id: int, user_id: int) -> bool {
    exists|i: int| 0 <= i < rows.len() && answers(#[trigger] rows[i], scrum_id, user_id)
}

/// The responses with every answer of the user to the scrum set to
/// `available`, given at `time`.
pub open spec fn updated(
    rows: Seq<ScrumResponse>,
    scrum_id: int,
    user_id: int,
    available: bool,
    time: i64,
) -> Seq<ScrumResponse> {
    Seq::new(
        rows.len(),
        |i: int|
            if answers(rows[i], scrum_id, user_id) {
                ScrumResponse { available, response_time: time, ..rows[i] }
            } else {
                rows[i]
            },
    )
}

/// The responses without the answers of the user to the scrum that say
/// `available`. An answer that says the opposite stays.
pub open spec fn retracted(
    rows: Seq<ScrumResponse>,
    scrum_id: int,
    user_id: int,
    available: bool,
) -> Seq<ScrumResponse>
    decreases rows.len(),
{
    if rows.len() == 0 {
        Seq::empty()
    } else if answers(rows.last(), scrum_id, user_id) && rows.last().available == available {
        retracted(rows.drop_last(), scrum_id, user_id, available)
    } else {
        retracted(rows.drop_last(), scrum_id, user_id, available).push(rows.last())
    }
}

/// The store after [`create_scrum_response`], and the kind of failure if it
/// failed. A user has one answer to a scrum at most: a second row is refused.
pub open spec fn create_scrum_response_spec(
    db: StorageView,
    scrum_id: i64,
    user_id: i64,
    available: bool,
    time: i64,
) -> (StorageView, Option<ErrorKind>) {
    if has_response(db.scrum_responses, scrum_id as int, user_id as int) {
        (db, Some(ErrorKind::Database))
    } else {
        (
            StorageView {
                scrum_responses: db.scrum_responses.push(
                    ScrumResponse { scrum_id, user_id, available, response_time: time },
                ),
                ..db
            },
            None,
        )
    }
}

/// The store after [`update_scrum_response`].
pub open spec fn update_scrum_response_spec(
    db: StorageView,
    scrum_id: i64,
    user_id: i64,
    available: bool,
    time: i64,
) -> StorageView {
    StorageView {
        scrum_responses: updated(
            db.scrum_responses,
            scrum_id as int,
            user_id as int,
            available,
            time,
        ),
        ..db
    }
}

/// The store after [`respond_scrum`]: the answer on record is changed, and
/// where there is none yet, the answer is put on record.
pub open spec fn respond_scrum_spec(db: StorageView, react: ScrumReactView, time: i64) -> StorageView {
    if has_response(db.scrum_responses, react.scrum.id, react.user.id) {
        update_scrum_response_spec(
            db,
            react.scrum.id as i64,
            react.user.id as i64,
            react.available,
            time,
        )
    } else {
        create_scrum_response_spec(
            db,
            react.scrum.id as i64,
            react.user.id as i64,
            react.available,
            time,
        ).0
    }
}

/// The store after [`unrespond_scrum`].
pub open spec fn unrespond_scrum_spec(db: StorageView, react: ScrumReactView) -> StorageView {
    StorageView {
        scrum_responses: retracted(
            db.scrum_responses,
            react.scrum.id,
            react.user.id,
            react.available,
        ),
        ..db
    }
}

/// What [`parse_react`] makes of a reaction: the answer that it stands for.
/// It stands for none unless its emoji says something of availability, its
/// message is the poll of a scrum that is open, and a user put it there.
pub open spec fn parse_react_spec(db: StorageView, react: Reaction) -> Option<ScrumReactView> {
    match (
        availability_of(react.emoji),
        find_scrum(db.scrums, of_message(decimal(react.message_id as nat))),
        react.user_id,
    ) {
        (Some(available), Some(scrum), Some(actor)) => if scrum.is_open {
            match find_user(db.users, db.users_discord_ids, actor) {
                Some(user) => Some(ScrumReactView { available, user, scrum }),
                None => None,
            }
        } else {
            None
        },
        _ => None,
    }
}

/// Whether the user has an answer to the scrum on record.
pub fn scrum_response_exists(db: &Storage, scrum: &Scrum, user: &User) -> (res: Result<bool, Error>)
    ensures
        res matches Ok(exists) && exists == has_response(
            db@.scrum_responses,
            scrum.id as int,
            user.id as int,
        ),
{
    let mut i: usize = 0;
    while i < db.scrum_responses.len()
        invariant
            i <= db.scrum_responses.len(),
            forall|j: int|
                0 <= j < i ==> !answers(
                    #[trigger] db.scrum_responses@[j],
                    scrum.id as int,
                    user.id as int,
                ),
        decreases db.scrum_responses.len() - i,
    {
        if db.scrum_responses[i].scrum_id == scrum.id && db.scrum_responses[i].user_id == user.id {
            assert(answers(db.scrum_responses@[i as int], scrum.id as int, user.id as int));
            return Ok(true);
        }
        i += 1;
    }
    Ok(false)
}

/// Puts the answer of the user to the scrum on record.
pub fn create_scrum_response(
    db: &mut Storage,
    scrum: &Scrum,
    user: &User,
    available: bool,
    response_time: i64,
) -> (res: Result<(), Error>)
    ensures
        (final(db)@, failure(res)) == create_scrum_response_spec(
            old(db)@,
            scrum.id,
            user.id,
            available,
            response_time,
        ),
        res is Err ==> *final(db) == *old(db),
{
    let exists = match scrum_response_exists(db, scrum, user) {
        Ok(exists) => exists,
        Err(err) => {
            return Err(err);
        },
    };
    if exists {
        return Err(
            database_error(
                "UNIQUE constraint failed: scrum_responses.scrum_id, scrum_responses.user_id",
            ),
        );
    }
    db.scrum_responses.push(
        ScrumResponse { scrum_id: scrum.id, user_id: user.id, available, response_time },
    );
    Ok(())
}

/// Changes the answer of the user to the scrum that is on record.
pub fn update_scrum_response(
    db: &mut Storage,
    scrum: &Scrum,
    user: &User,
    available: bool,
    response_time: i64,
) -> (res: Result<(), Error>)
    ensures
        res is Ok,
        final(db)@ == update_scrum_response_spec(
            old(db)@,
            scrum.id,
            user.id,
            available,
            response_time,
        ),
{
    let ghost before = db.scrum_responses@;
    let mut i: usize = 0;
    while i < db.scrum_responses.len()
        invariant
            i <= db.scrum_responses.len(),
            db.scrum_responses@.len() == before.len(),
            before == old(db).scrum_responses@,
            db.users == old(db).users,
            db.users_discord_ids == old(db).users_discord_ids,
            db.scrums == old(db).scrums,
            db.ugocoin_accounts == old(db).ugocoin_accounts,
            db.ugocoin_tx_logs == old(db).ugocoin_tx_logs,
            forall|j: int| i <= j < before.len() ==> #[trigger] db.scrum_responses@[j] == before[j],
            forall|j: int|
                0 <= j < i ==> #[trigger] db.scrum_responses@[j] == updated(
                    before,
                    scrum.id as int,
                    user.id as int,
                    available,
                    response_time,
                )[j],
        decreases db.scrum_responses.len() - i,
    {
        let row = db.scrum_responses[i];
        if row.scrum_id == scrum.id && row.user_id == user.id {
            db.scrum_responses.set(
                i,
                ScrumResponse {
                    scrum_id: row.scrum_id,
                    user_id: row.user_id,
                    available,
                    response_time,
                },
            );
        }
        i += 1;
    }
    assert(db@.scrum_responses =~= updated(
        before,
        scrum.id as int,
        user.id as int,
        available,
        response_time,
    ));
    Ok(())
}

/// Reads off an emoji what it says of availability.
pub fn get_availablity_from_react(react: &Reaction) -> (available: Option<bool>)
    ensures
        available == availability_of(react.emoji),
{
    match &react.emoji {
        ReactionEmoji::Unicode(emoji) => {
            if *emoji == String::from_str(scrum_accept_emoji()) {
                Some(true)
            } else if *emoji == String::from_str(scrum_decline_emoji()) {
                Some(false)
            } else {
                None
            }
        },
        ReactionEmoji::Custom => None,
    }
}

/// Reads a reaction as an answer to a scrum, if it is one.
pub fn parse_react(db: &Storage, react: &Reaction) -> (res: Result<Option<ScrumReact>, Error>)
    ensures
        res matches Ok(parsed) && (match parsed {
            Some(answer) => Some(answer@),
            None => None,
        }) == parse_react_spec(db@, *react),
{
    let available = match get_availablity_from_react(react) {
        Some(available) => available,
        // Neither of the two markers, so no answer.
        None => {
            return Ok(None);
        },
    };
    let found = match get_scrum_from_message(db, react.message_id) {
        Ok(found) => found,
        Err(err) => {
            return Err(err);
        },
    };
    let scrum = match found {
        Some(scrum) => scrum,
        // Not the poll of a scrum.
        None => {
            return Ok(None);
        },
    };
    if !scrum.is_open {
        // A scrum that is closed takes no answers.
        return Ok(None);
    }
    let user_id = match react.user_id {
        Some(id) => id,
        // What no user put there is no answer.
        None => {
            return Ok(None);
        },
    };
    let user = match get_user(db, user_id) {
        Ok(user) => user,
        Err(err) => match err.error {
            // Somebody who is no user has reacted: that is no answer.
            InnerError::UserNotFound => {
                return Ok(None);
            },
            _ => {
                return Err(err);
            },
        },
    };
    Ok(Some(ScrumReact { available, user, scrum }))
}

/// Puts an answer on record: the user's answer to the scrum is changed, or
/// written where the user had none.
pub fn respond_scrum(db: &mut Storage, react: &ScrumReact, response_time: &LocalDateTime) -> (res:
    Result<(), Error>)
    ensures
        res is Ok,
        final(db)@ == respond_scrum_spec(old(db)@, react@, response_time.timestamp),
{
    let exists = match scrum_response_exists(db, &react.scrum, &react.user) {
        Ok(exists) => exists,
        Err(err) => {
            return Err(err);
        },
    };
    if exists {
        update_scrum_response(
            db,
            &react.scrum,
            &react.user,
            react.available,
            response_time.timestamp,
        )
    } else {
        create_scrum_response(
            db,
            &react.scrum,
            &react.user,
            react.available,
            response_time.timestamp,
        )
    }
}

fn delete_resp_if_exists(db: &mut Storage, scrum: &Scrum, user: &User, available: bool) -> (res:
    Result<(), Error>)
    ensures
        res is Ok,
        final(db)@ == (StorageView {
            scrum_responses: retracted(
                old(db)@.scrum_responses,
                scrum.id as int,
                user.id as int,
                available,
            ),
            ..old(db)@
        }),
{
    // The answer that stands is the one given last. Whoever has put both markers and takes the
    // first one off again must not lose the answer, so only the answer of the same kind goes.
    let mut kept: Vec<ScrumResponse> = Vec::new();
    let mut i: usize = 0;
    let ghost before = db.scrum_responses@;
    assert(before.take(0) =~= Seq::<ScrumResponse>::empty());
    while i < db.scrum_responses.len()
        invariant
            i <= db.scrum_responses.len(),
            before == db.scrum_responses@,
            *db == *old(db),
            kept@ =~= retracted(before.take(i as int), scrum.id as int, user.id as int, available),
        decreases db.scrum_responses.len() - i,
    {
        assert(before.take(i + 1).drop_last() =~= before.take(i as int));
        let row = db.scrum_responses[i];
        if !(row.scrum_id == scrum.id && row.user_id == user.id && row.available == available) {
            kept.push(row);
        }
        i += 1;
    }
    assert(before.take(i as int) =~= before);
    db.scrum_responses = kept;
    Ok(())
}

/// Takes an answer off the record, if the record holds that very answer.
pub fn unrespond_scrum(db: &mut Storage, react: &ScrumReact) -> (res: Result<(), Error>)
    ensures
        res is Ok,
        final(db)@ == unrespond_scrum_spec(old(db)@, react@),
{
    delete_resp_if_exists(db, &react.scrum, &react.user, react.available)
}

/// Where nothing on record is the answer that is taken back, taking it back
/// changes nothing: neither an answer that was never given can be lost, nor
/// the opposite answer that stands.
pub proof fn lemma_retract_absent(
    rows: Seq<ScrumResponse>,
    scrum_id: int,
    user_id: int,
    available: bool,
)
    requires
        forall|i: int|
            0 <= i < rows.len() && answers(#[trigger] rows[i], scrum_id, user_id)
                ==> rows[i].available != available,
    ensures
        retracted(rows, scrum_id, user_id, available) == rows,
    decreases rows.len(),
{
    if rows.len() > 0 {
        let front = rows.drop_last();
        assert forall|i: int|
            0 <= i < front.len() && answers(
                #[trigger] front[i],
                scrum_id,
                user_id,
            ) implies front[i].available != available by {
            assert(front[i] == rows[i]);
        }
        lemma_retract_absent(front, scrum_id, user_id, available);
        assert(retracted(rows, scrum_id, user_id, available) =~= rows);
    } else {
        assert(retracted(rows, scrum_id, user_id, available) =~= rows);
    }
}

} // verus!
