//! What the bot does when its timer ticks and when somebody reacts to a message.

use vstd::prelude::*;

use crate::channel::Channel;
use crate::channel::ChannelView;
use crate::datetime::parsed_date;
use crate::datetime::scrum_date_format;
use crate::datetime::LocalDateTime;
use crate::error::failure;
use crate::error::Error;
use crate::error::ErrorKind;
use crate::error::WithContext;
use crate::scrum::close::close_scrum;
use crate::scrum::close::close_scrum_spec;
use crate::scrum::close::decisive_status;
use crate::scrum::close::takes_answers;
use crate::scrum::table::find_scrum;
use crate::scrum::table::get_scrum_for_date;
use crate::scrum::table::get_scrum_from_message;
use crate::scrum::open::notify_scrum;
use crate::scrum::open::notify_scrum_spec;
use crate::scrum::table::of_message;
use crate::scrum::table::on_date;
use crate::scrum::reactions::parse_scrum_reactions;
use crate::scrum::reactions::parse_scrum_reactions_spec;
use crate::scrum::scrum_status;
use crate::scrum::should_create_scrum;
use crate::scrum::should_force_close_scrum;
use crate::scrum::status_of;
use crate::scrum::ScrumStatus;
use crate::scrum::SCRUM_CLOSE_HOUR;
use crate::scrum::SCRUM_NOTIFY_HOUR;
use crate::scrum_resp::parse_react;
use crate::scrum_resp::parse_react_spec;
use crate::scrum_resp::respond_scrum;
use crate::scrum_resp::respond_scrum_spec;
use crate::scrum_resp::unrespond_scrum;
use crate::scrum_resp::unrespond_scrum_spec;
use crate::scrum_resp::Reaction;
use crate::storage::Storage;
use crate::storage::StorageView;
use crate::text::decimal;
use crate::text::u64_of_text;

verus! {

/// The store and the channel after [`job_poll_fn`], and the kind of failure
/// if it failed.
///
/// Both decisions of a tick are taken on the scrum that the day had when the
/// tick began. The day's scrum is opened where the day has none and the
/// hour of the announcement has come. It is closed, whatever its tally,
/// where it is open and the hour of closing has come.
pub open spec fn job_poll_spec(db: StorageView, channel: ChannelView, now: LocalDateTime) -> (
    StorageView,
    ChannelView,
    Option<ErrorKind>,
) {
    match find_scrum(db.scrums, on_date(now.date.text())) {
        None => if now.hour >= SCRUM_NOTIFY_HOUR {
            notify_scrum_spec(db, channel, now.date.text())
        } else {
            (db, channel, None)
        },
        Some(scrum) => if scrum.is_open && now.hour >= SCRUM_CLOSE_HOUR {
            match u64_of_text(scrum.message_id) {
                None => (db, channel, Some(ErrorKind::IdParse)),
                Some(poll) => match parse_scrum_reactions_spec(db, channel, poll) {
                    None => (db, channel, Some(ErrorKind::Discord)),
                    Some(tally) => close_scrum_spec(
                        db,
                        channel,
                        scrum,
                        tally,
                        status_of(tally.num_available as int, tally.num_unavailable as int),
                        now.timestamp as int,
                    ),
                },
            }
        } else {
            (db, channel, None)
        },
    }
}

/// One tick of the timer: opens the day's scrum or closes it, where it is time.
pub fn job_poll_fn(db: &mut Storage, channel: &mut Channel, now: &LocalDateTime) -> (res: Result<
    (),
    Error,
>)
    requires
        now.date.is_valid(),
    ensures
        (final(db)@, final(channel)@, failure(res)) == job_poll_spec(
            old(db)@,
            old(channel)@,
            *now,
        ),
{
    let today_scrum = match get_scrum_for_date(db, now).with_context("Getting today's scrum") {
        Ok(found) => found,
        Err(err) => {
            return Err(err);
        },
    };
    if should_create_scrum(now, today_scrum.as_ref()) {
        match notify_scrum(db, now, channel).with_context("Notifying scrum") {
            Ok(()) => {},
            Err(err) => {
                return Err(err);
            },
        }
    }
    if let Some(to_close) = should_force_close_scrum(now, today_scrum.as_ref()) {
        let message_id = match to_close.message_id().with_context(
            "Parsing today's scrum message ID",
        ) {
            Ok(id) => id,
            Err(err) => {
                return Err(err);
            },
        };
        let reactions = match parse_scrum_reactions(db, channel, message_id).with_context(
            "Parsing scrum reactions",
        ) {
            Ok(reactions) => reactions,
            Err(err) => {
                return Err(err);
            },
        };
        let scrum_status = scrum_status(&reactions);
        return close_scrum(db, channel, to_close, &reactions, scrum_status, now).with_context(
            "Force closing scrum",
        );
    }
    Ok(())
}

/// The store and the channel after [`on_react`], and the kind of failure if
/// it failed.
///
/// A reaction counts only on the poll of the day's scrum, while that is
/// open. If it is an answer, the answer is put on record or taken off it.
/// Then the poll is tallied, and where the tally decides the scrum, the
/// scrum is closed at once.
pub open spec fn on_react_spec(
    db: StorageView,
    channel: ChannelView,
    react: Reaction,
    added: bool,
    now: LocalDateTime,
) -> (StorageView, ChannelView, Option<ErrorKind>) {
    match find_scrum(db.scrums, of_message(decimal(react.message_id as nat))) {
        None => (db, channel, None),
        Some(scrum) => if !scrum.is_open {
            (db, channel, None)
        } else {
            match parsed_date(scrum.scrum_date, scrum_date_format()) {
                None => (db, channel, Some(ErrorKind::DateTimeParse)),
                Some(day) => if day != (
                    now.date.year as int,
                    now.date.month as int,
                    now.date.day as int,
                ) {
                    (db, channel, None)
                } else {
                    let recorded = match parse_react_spec(db, react) {
                        Some(answer) => if added {
                            respond_scrum_spec(db, answer, now.timestamp)
                        } else {
                            unrespond_scrum_spec(db, answer)
                        },
                        None => db,
                    };
                    match parse_scrum_reactions_spec(recorded, channel, react.message_id) {
                        None => (recorded, channel, Some(ErrorKind::Discord)),
                        Some(tally) => {
                            let status = status_of(
                                tally.num_available as int,
                                tally.num_unavailable as int,
                            );
                            if status == ScrumStatus::Unknown {
                                (recorded, channel, None)
                            } else {
                                close_scrum_spec(
                                    recorded,
                                    channel,
                                    scrum,
                                    tally,
                                    status,
                                    now.timestamp as int,
                                )
                            }
                        },
                    }
                },
            }
        },
    }
}

/// Takes note of a reaction that was put on a message (`added`) or taken off it.
pub fn on_react(
    db: &mut Storage,
    channel: &mut Channel,
    react: &Reaction,
    added: bool,
    now: &LocalDateTime,
) -> (res: Result<(), Error>)
    ensures
        (final(db)@, final(channel)@, failure(res)) == on_react_spec(
            old(db)@,
            old(channel)@,
            *react,
            added,
            *now,
        ),
{
    let found = match get_scrum_from_message(db, react.message_id).with_context(
        "Fetching scrum from message",
    ) {
        Ok(found) => found,
        Err(err) => {
            return Err(err);
        },
    };
    let scrum = match found {
        Some(scrum) => scrum,
        None => {
            return Ok(());
        },
    };
    match takes_answers(&scrum, now) {
        Ok(true) => {},
        Ok(false) => {
            return Ok(());
        },
        Err(err) => {
            return Err(err);
        },
    }
    let answer = match parse_react(db, react).with_context("Reading the reaction") {
        Ok(answer) => answer,
        Err(err) => {
            return Err(err);
        },
    };
    if let Some(answer) = answer {
        let recorded = if added {
            respond_scrum(db, &answer, now)
        } else {
            unrespond_scrum(db, &answer)
        };
        match recorded.with_context("Recording the answer") {
            Ok(()) => {},
            Err(err) => {
                return Err(err);
            },
        }
    }
    let reactions = match parse_scrum_reactions(db, channel, react.message_id).with_context(
        "Parsing scrum reactions",
    ) {
        Ok(reactions) => reactions,
        Err(err) => {
            return Err(err);
        },
    };
    // Close at once where the answers given so far decide the scrum.
    match decisive_status(&reactions) {
        Some(scrum_status) => close_scrum(
            db,
            channel,
            &scrum,
            &reactions,
            scrum_status,
            now,
        ).with_context("Closing scrum"),
        None => Ok(()),
    }
}

} // verus!
