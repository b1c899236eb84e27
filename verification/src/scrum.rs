//! The daily scrum: its poll, its tally, its outcome and its reward.

pub mod close;
pub mod open;
pub mod reactions;
pub mod table;
pub mod tally;

pub use close::close_scrum;
pub use open::notify_scrum;
pub use reactions::parse_scrum_reactions;
pub use table::create_scrum_row;
pub use table::get_scrum_for_date;
pub use table::get_scrum_from_message;

use vstd::prelude::*;

use crate::datetime::LocalDateTime;
use crate::datetime::ScrumDate;
use crate::datetime::parsed_date;
use crate::datetime::scrum_date_format;
use crate::error::Error;
use crate::error::ErrorKind;
use crate::error::InnerError;
use crate::model::views;
use crate::text::decimal;
use crate::text::parse_u64;
use crate::text::push_decimal;
use crate::text::u64_of_text;
use crate::ugocoin::account::Ugocoin;
use crate::user::User;
use crate::user::UserView;

verus! {

/// One row of the scrums table: the poll of one day.
#[derive(Debug, PartialEq, Eq)]
pub struct Scrum {
    pub id: i64,
    pub is_open: bool,
    /// The day, as [`date_text`](crate::datetime::date_text) writes it.
    pub scrum_date: String,
    /// The id of the poll's message in the channel, in decimal digits.
    pub message_id: String,
}

/// What a [`Scrum`] is in contracts.
pub struct ScrumView {
    pub id: int,
    pub is_open: bool,
    pub scrum_date: Seq<char>,
    pub message_id: Seq<char>,
}

impl View for Scrum {
    type V = ScrumView;

    open spec fn view(&self) -> ScrumView {
        ScrumView {
            id: self.id as int,
            is_open: self.is_open,
            scrum_date: self.scrum_date@,
            message_id: self.message_id@,
        }
    }
}

/// How one participant stands towards a scrum.
#[derive(Debug, Clone, Copy, PartialEq, Eq, Structural)]
pub enum ScrumReact {
    Available,
    Unavailable,
    Unknown,
}

/// One roster member with the answer the poll holds for them.
#[derive(Debug)]
pub struct Availability {
    pub user: User,
    pub react: ScrumReact,
}

/// The tally of one poll: every roster member once, and how many members
/// stand in each class.
#[derive(Debug)]
pub struct ParsedScrumReacts {
    pub availability: Vec<Availability>,
    pub num_available: usize,
    pub num_unavailable: usize,
    pub num_unknown: usize,
}

/// What a scrum came to when it was closed.
#[derive(Debug, Clone, Copy, PartialEq, Eq, Structural)]
pub enum ScrumStatus {
    Possible,
    Impossible,
    Unknown,
}

/// What an [`Availability`] is in contracts.
pub struct AvailabilityView {
    pub user: UserView,
    pub react: ScrumReact,
}

impl View for Availability {
    type V = AvailabilityView;

    open spec fn view(&self) -> AvailabilityView {
        AvailabilityView { user: self.user@, react: self.react }
    }
}

/// What a [`ParsedScrumReacts`] is in contracts.
pub struct ParsedView {
    pub availability: Seq<AvailabilityView>,
    pub num_available: nat,
    pub num_unavailable: nat,
    pub num_unknown: nat,
}

impl View for ParsedScrumReacts {
    type V = ParsedView;

    open spec fn view(&self) -> ParsedView {
        ParsedView {
            availability: views(self.availability@),
            num_available: self.num_available as nat,
            num_unavailable: self.num_unavailable as nat,
            num_unknown: self.num_unknown as nat,
        }
    }
}

/// The outcome of a scrum under a tally: possible with three or more
/// available, else impossible with two or more unavailable, else unknown.
pub open spec fn status_of(num_available: int, num_unavailable: int) -> ScrumStatus {
    if num_available >= 3 {
        ScrumStatus::Possible
    } else if num_unavailable >= 2 {
        ScrumStatus::Impossible
    } else {
        ScrumStatus::Unknown
    }
}

pub fn scrum_status(reactions: &ParsedScrumReacts) -> (status: ScrumStatus)
    ensures
        status == status_of(reactions@.num_available as int, reactions@.num_unavailable as int),
{
    if reactions.num_available >= 3 {
        ScrumStatus::Possible
    } else if reactions.num_unavailable >= 2 {
        ScrumStatus::Impossible
    } else {
        ScrumStatus::Unknown
    }
}

/// The hour of the day from which the day's scrum is announced.
pub const SCRUM_NOTIFY_HOUR: u32 = 3;

/// The hour of the day from which a scrum that is still open is closed.
pub const SCRUM_CLOSE_HOUR: u32 = 16;

/// The text of the message that announces a scrum.
pub open spec fn notify_text() -> Seq<char> {
    "@everyone\nUGO-BOT SCRUMMONS: React if you are available for scrum!"@
}

/// The text that takes the place of the announcement once the vote is closed.
pub open spec fn closed_text() -> Seq<char> {
    "Voting is closed for this scrum."@
}

/// The text of the message that announces a scrum.
pub fn scrum_notify_string() -> (text: &'static str)
    ensures
        text@ == notify_text(),
{
    "@everyone\nUGO-BOT SCRUMMONS: React if you are available for scrum!"
}

/// The text that takes the place of the announcement once the vote is closed.
pub fn scrum_closed_message() -> (text: &'static str)
    ensures
        text@ == closed_text(),
{
    "Voting is closed for this scrum."
}

impl Clone for Scrum {
    fn clone(&self) -> (copy: Scrum)
        ensures
            copy == *self,
    {
        Scrum {
            id: self.id,
            is_open: self.is_open,
            scrum_date: self.scrum_date.clone(),
            message_id: self.message_id.clone(),
        }
    }
}

impl Scrum {
    /// The day of this scrum, read from the text that the table holds for it.
    pub fn date(&self) -> (res: Result<ScrumDate, Error>)
        ensures
            match res {
                Ok(date) => date.is_valid() && parsed_date(self@.scrum_date, scrum_date_format())
                    == Some((date.year as int, date.month as int, date.day as int)),
                Err(err) => err.error.kind() == ErrorKind::DateTimeParse && parsed_date(
                    self@.scrum_date,
                    scrum_date_format(),
                ) is None,
            },
    {
        match ScrumDate::parse(self.scrum_date.as_str()) {
            Ok(date) => Ok(date),
            Err(err) => Err(Error::new(InnerError::DateTimeParseError(err))),
        }
    }

    /// The id of the message that carries this scrum's poll.
    pub fn message_id(&self) -> (res: Result<u64, Error>)
        ensures
            match res {
                Ok(id) => u64_of_text(self@.message_id) == Some(id),
                Err(err) => err.error.kind() == ErrorKind::IdParse && u64_of_text(
                    self@.message_id,
                ) is None,
            },
    {
        match parse_u64(self.message_id.as_str()) {
            Ok(id) => Ok(id),
            Err(err) => Err(Error::new(InnerError::IdParseError(err))),
        }
    }
}

/// The text that the scrums table holds for the day of `datetime`.
pub fn date_to_scrum_db_format(datetime: &LocalDateTime) -> (text: String)
    requires
        datetime.date.is_valid(),
    ensures
        text@ == datetime.date.text(),
{
    datetime.date.format()
}

fn is_past_scrum_notification_time(datetime: &LocalDateTime) -> (past: bool)
    ensures
        past == (datetime.hour >= SCRUM_NOTIFY_HOUR),
{
    datetime.hour >= SCRUM_NOTIFY_HOUR
}

/// Whether the day's scrum is to be opened now: the hour of the announcement
/// has come, and the day has no scrum yet.
pub fn should_create_scrum(datetime: &LocalDateTime, today_scrum: Option<&Scrum>) -> (create: bool)
    ensures
        create == (datetime.hour >= SCRUM_NOTIFY_HOUR && today_scrum is None),
{
    is_past_scrum_notification_time(datetime) && today_scrum.is_none()
}

fn is_past_scrum_close_time(datetime: &LocalDateTime) -> (past: bool)
    ensures
        past == (datetime.hour >= SCRUM_CLOSE_HOUR),
{
    datetime.hour >= SCRUM_CLOSE_HOUR
}

/// The scrum to close now, whatever its tally: the day's scrum, if it is
/// still open and the hour of closing has come.
pub fn should_force_close_scrum<'a>(
    datetime: &LocalDateTime,
    today_scrum: Option<&'a Scrum>,
) -> (to_close: Option<&'a Scrum>)
    ensures
        to_close == (match today_scrum {
            Some(scrum) if scrum.is_open && datetime.hour >= SCRUM_CLOSE_HOUR => Some(scrum),
            _ => None,
        }),
{
    match today_scrum {
        Some(scrum) => if scrum.is_open && is_past_scrum_close_time(datetime) {
            Some(scrum)
        } else {
            None
        },
        None => None,
    }
}

/// The whole coins that a streak of `streak` scrums earns: one, and one more
/// for every seven scrums of the streak.
pub open spec fn reward_coins(streak: int) -> int {
    1 + streak / 7
}

/// Whether the reward for a streak of `streak` scrums is an amount that an
/// account can hold.
pub open spec fn reward_fits(streak: int) -> bool {
    i64::MIN <= reward_coins(streak) * 100 <= i64::MAX
}

/// The reward for a streak of `streak` scrums, unless no account could hold it.
pub fn checked_scrum_reward(streak: i64) -> (reward: Option<Ugocoin>)
    ensures
        reward is Some <==> reward_fits(streak as int),
        reward matches Some(amount) ==> amount@ == reward_coins(streak as int) * 100,
{
    let weeks = if streak >= 0 {
        streak / 7
    } else {
        (streak + 1) / 7 - 1
    };
    assert(weeks == (streak as int) / 7);
    let coins = 1 + weeks;
    if coins > i64::MAX / 100 || coins < i64::MIN / 100 {
        None
    } else {
        Some(Ugocoin::from_ugocoin(coins))
    }
}

/// The reward for a streak of `streak` scrums.
pub fn calculate_scrum_reward(streak: i64) -> (reward: Ugocoin)
    requires
        reward_fits(streak as int),
    ensures
        reward@ == reward_coins(streak as int) * 100,
{
    match checked_scrum_reward(streak) {
        Some(reward) => reward,
        None => Ugocoin::from_ugocents(0),
    }
}

/// A streak of less than seven scrums earns one coin, and every seven
/// scrums more earn one coin more.
pub proof fn lemma_reward_grows_weekly(streak: int)
    ensures
        0 <= streak < 7 ==> reward_coins(streak) == 1,
        reward_coins(streak + 7) == reward_coins(streak) + 1,
{
}

/// The names of the participants of `entries` that are not available, one on
/// each line.
pub open spec fn absent_lines(entries: Seq<AvailabilityView>) -> Seq<char>
    decreases entries.len(),
{
    if entries.len() == 0 {
        Seq::empty()
    } else if entries.last().react == ScrumReact::Available {
        absent_lines(entries.drop_last())
    } else {
        absent_lines(entries.drop_last()) + entries.last().user.display_name + seq!['\n']
    }
}

/// The headline of the message that closes a scrum.
pub open spec fn close_headline(status: ScrumStatus) -> Seq<char> {
    match status {
        ScrumStatus::Possible => "SCRUM POSSIBLE"@,
        _ => "SCRUM FAILED"@,
    }
}

/// The message that closes a scrum: the outcome, how many of the
/// participants are available, and who is not.
pub open spec fn close_notif_text(reactions: ParsedView, status: ScrumStatus) -> Seq<char> {
    "@everyone "@ + close_headline(status) + ": "@ + decimal(reactions.num_available) + "/"@
        + decimal(reactions.availability.len()) + " available for scrum.\n\nNot available:\n"@
        + absent_lines(reactions.availability)
}

/// Writes the message that closes a scrum.
pub fn format_scrum_close_notif(reactions: &ParsedScrumReacts, scrum_status: ScrumStatus) -> (text:
    String)
    ensures
        text@ == close_notif_text(reactions@, scrum_status),
{
    let header_msg = match scrum_status {
        ScrumStatus::Possible => "SCRUM POSSIBLE",
        _ => "SCRUM FAILED",
    };
    let mut text = String::from_str("@everyone ");
    text.append(header_msg);
    text.append(": ");
    push_decimal(&mut text, reactions.num_available as u64);
    text.append("/");
    push_decimal(&mut text, reactions.availability.len() as u64);
    text.append(" available for scrum.\n\nNot available:\n");
    let ghost opening = text@;
    let ghost entries = reactions@.availability;
    assert(opening =~= "@everyone "@ + close_headline(scrum_status) + ": "@ + decimal(
        reactions@.num_available,
    ) + "/"@ + decimal(entries.len()) + " available for scrum.\n\nNot available:\n"@);
    let mut i: usize = 0;
    assert(entries.take(0) =~= Seq::<AvailabilityView>::empty());
    while i < reactions.availability.len()
        invariant
            i <= reactions.availability.len(),
            entries == reactions@.availability,
            text@ =~= opening + absent_lines(entries.take(i as int)),
        decreases reactions.availability.len() - i,
    {
        proof {
            assert(entries.take(i + 1).drop_last() =~= entries.take(i as int));
            assert(entries.take(i + 1).last() == reactions.availability@[i as int]@);
        }
        match reactions.availability[i].react {
            ScrumReact::Available => {},
            _ => {
                text.append(reactions.availability[i].user.display_name.as_str());
                text.append("\n");
                proof {
                    reveal_strlit("\n");
                    assert("\n"@ =~= seq!['\n']);
                }
            },
        }
        i += 1;
    }
    assert(entries.take(i as int) =~= entries);
    text
}

} // verus!
