//! Reading a tally off a poll.

use vstd::prelude::*;

use crate::channel::Channel;
use crate::channel::ChannelView;
use crate::channel::Marker;
use crate::error::Error;
use crate::error::ErrorKind;
use crate::error::InnerError;
use crate::scrum::ParsedScrumReacts;
use crate::scrum::ParsedView;
use crate::scrum::tally::tally;
use crate::scrum::tally::tally_spec;
use crate::storage::DiscordLink;
use crate::storage::Storage;
use crate::storage::StorageView;
use crate::user::UserView;
use crate::user::find_user;
use crate::user::get_all_users;
use crate::user::get_user;

verus! {

/// The users behind the chat identities `actors`, by id and in the order of
/// `actors`. An identity that belongs to no user is left out.
pub open spec fn resolved(users: Seq<UserView>, links: Seq<DiscordLink>, actors: Seq<u64>) -> Seq<
    i64,
>
    decreases actors.len(),
{
    if actors.len() == 0 {
        Seq::empty()
    } else {
        match find_user(users, links, actors.last()) {
            Some(user) => resolved(users, links, actors.drop_last()).push(user.id as i64),
            None => resolved(users, links, actors.drop_last()),
        }
    }
}

/// The tally that [`parse_scrum_reactions`] reads off the poll `message_id`;
/// nothing where the channel has no such message.
pub open spec fn parse_scrum_reactions_spec(
    db: StorageView,
    channel: ChannelView,
    message_id: u64,
) -> Option<ParsedView> {
    if channel.has_message(message_id) {
        Some(
            tally_spec(
                db.users,
                resolved(
                    db.users,
                    db.users_discord_ids,
                    channel.message(message_id).signals(Marker::Accept),
                ),
                resolved(
                    db.users,
                    db.users_discord_ids,
                    channel.message(message_id).signals(Marker::Decline),
                ),
            ),
        )
    } else {
        None
    }
}

fn resolve_all(db: &Storage, actors: &Vec<u64>) -> (res: Result<Vec<i64>, Error>)
    ensures
        res matches Ok(ids) && ids@ == resolved(db@.users, db@.users_discord_ids, actors@),
{
    let mut ids: Vec<i64> = Vec::new();
    let mut i: usize = 0;
    assert(actors@.take(0) =~= Seq::<u64>::empty());
    while i < actors.len()
        invariant
            i <= actors.len(),
            ids@ =~= resolved(db@.users, db@.users_discord_ids, actors@.take(i as int)),
        decreases actors.len() - i,
    {
        assert(actors@.take(i + 1).drop_last() =~= actors@.take(i as int));
        match get_user(db, actors[i]) {
            Ok(user) => {
                ids.push(user.id);
            },
            Err(err) => match err.error {
                // Somebody who is no user has reacted: that is no answer.
                InnerError::UserNotFound => {},
                _ => {
                    return Err(err);
                },
            },
        }
        i += 1;
    }
    assert(actors@.take(i as int) =~= actors@);
    Ok(ids)
}

/// Reads the tally of a scrum off its poll: every user once, classified by
/// the markers that the users have put on the message `message_id`.
pub fn parse_scrum_reactions(db: &Storage, channel: &Channel, message_id: u64) -> (res: Result<
    ParsedScrumReacts,
    Error,
>)
    ensures
        match res {
            Ok(parsed) => parse_scrum_reactions_spec(db@, channel@, message_id) == Some(parsed@)
                && parsed@.wf() && parsed@.num_available + parsed@.num_unavailable
                + parsed@.num_unknown == parsed@.availability.len(),
            Err(err) => parse_scrum_reactions_spec(db@, channel@, message_id) is None
                && err.error.kind() == ErrorKind::Discord,
        },
{
    let all_users = match get_all_users(db) {
        Ok(users) => users,
        Err(err) => {
            return Err(err);
        },
    };
    let decliners = match channel.reaction_users(message_id, Marker::Decline) {
        Ok(actors) => actors,
        Err(err) => {
            return Err(err);
        },
    };
    let negative = match resolve_all(db, &decliners) {
        Ok(ids) => ids,
        Err(err) => {
            return Err(err);
        },
    };
    let accepters = match channel.reaction_users(message_id, Marker::Accept) {
        Ok(actors) => actors,
        Err(err) => {
            return Err(err);
        },
    };
    let positive = match resolve_all(db, &accepters) {
        Ok(ids) => ids,
        Err(err) => {
            return Err(err);
        },
    };
    Ok(tally(&all_users, &positive, &negative))
}

} // verus!
