//! Opening the scrum of a day.

use vstd::prelude::*;

use crate::channel::Channel;
use crate::channel::ChannelView;
use crate::channel::Marker;
use crate::datetime::LocalDateTime;
use crate::error::Error;
use crate::error::ErrorKind;
use crate::error::failure;
use crate::scrum::notify_text;
use crate::scrum::scrum_notify_string;
use crate::scrum::table::create_scrum_row;
use crate::scrum::table::create_scrum_row_spec;
use crate::storage::Storage;
use crate::storage::StorageView;

verus! {

/// The store and the channel after [`notify_scrum`], and the kind of failure
/// if it failed.
///
/// The poll is posted and gets its two markers, then the scrum's row is
/// written. Where the row is refused, the poll is taken back, and the
/// failure is that of the store unless taking back fails too.
pub open spec fn notify_scrum_spec(db: StorageView, channel: ChannelView, date: Seq<char>) -> (
    StorageView,
    ChannelView,
    Option<ErrorKind>,
) {
    let poll = channel.next_id;
    let (posted, post_failure) = channel.send_message(notify_text());
    let (accepting, accept_failure) = posted.react(poll, Marker::Accept);
    let (polling, decline_failure) = accepting.react(poll, Marker::Decline);
    let (opened, row_failure) = create_scrum_row_spec(db, date, poll);
    let (retracted, retract_failure) = polling.delete(poll);
    if post_failure is Some {
        (db, posted, post_failure)
    } else if accept_failure is Some {
        (db, accepting, accept_failure)
    } else if decline_failure is Some {
        (db, polling, decline_failure)
    } else if row_failure is None {
        (opened, polling, None)
    } else if retract_failure is Some {
        (db, retracted, retract_failure)
    } else {
        (db, retracted, row_failure)
    }
}

/// The failure to report of an opening whose row was refused: that of taking
/// the poll back where that failed too, else that of the row.
pub fn open_failure(refused: Error, retracted: Result<(), Error>) -> (err: Error)
    ensures
        err == (match retracted {
            Ok(()) => refused,
            Err(gone) => gone,
        }),
{
    match retracted {
        Ok(()) => refused,
        Err(gone) => gone,
    }
}

/// Opens the scrum of the day of `datetime`: posts the poll with its two
/// markers and writes the scrum's row. Where the row cannot be written the
/// poll is taken back, so that a later attempt starts afresh.
pub fn notify_scrum(db: &mut Storage, datetime: &LocalDateTime, channel: &mut Channel) -> (res:
    Result<(), Error>)
    requires
        datetime.date.is_valid(),
    ensures
        (final(db)@, final(channel)@, failure(res)) == notify_scrum_spec(
            old(db)@,
            old(channel)@,
            datetime.date.text(),
        ),
        res is Err ==> *final(db) == *old(db),
{
    let message = match channel.send_message(scrum_notify_string()) {
        Ok(message) => message,
        Err(err) => {
            return Err(err);
        },
    };
    match channel.react(message, Marker::Accept) {
        Ok(()) => {},
        Err(err) => {
            return Err(err);
        },
    }
    match channel.react(message, Marker::Decline) {
        Ok(()) => {},
        Err(err) => {
            return Err(err);
        },
    }
    let result = create_scrum_row(db, datetime, message);
    // Take the poll back where its row was refused, so that the next attempt can post anew.
    if let Err(err) = result {
        let retracted = channel.delete(message);
        return Err(open_failure(err, retracted));
    }
    Ok(())
}

} // verus!
