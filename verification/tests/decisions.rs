use ugo_ii_bot::datetime::LocalDateTime;
use ugo_ii_bot::datetime::ScrumDate;
use ugo_ii_bot::error::InnerError;
use ugo_ii_bot::error::database_error;
use ugo_ii_bot::error::discord_error;
use ugo_ii_bot::scrum::Availability;
use ugo_ii_bot::scrum::ParsedScrumReacts;
use ugo_ii_bot::scrum::Scrum;
use ugo_ii_bot::scrum::ScrumReact;
use ugo_ii_bot::scrum::ScrumStatus;
use ugo_ii_bot::scrum::close::Settlement;
use ugo_ii_bot::scrum::close::decisive_status;
use ugo_ii_bot::scrum::close::scrum_reward_memo;
use ugo_ii_bot::scrum::close::settlement_for;
use ugo_ii_bot::scrum::close::takes_answers;
use ugo_ii_bot::scrum::open::open_failure;
use ugo_ii_bot::scrum_resp::Reaction;
use ugo_ii_bot::scrum_resp::ReactionEmoji;
use ugo_ii_bot::scrum_resp::get_availablity_from_react;
use ugo_ii_bot::ugocoin::Ugocoin;
use ugo_ii_bot::ugocoin::UgocoinAccount;
use ugo_ii_bot::ugocoin::account::check_transfer;
use ugo_ii_bot::user::User;

fn entry(streak: i64, react: ScrumReact) -> Availability {
    Availability { user: User { id: 1, display_name: "ann".to_string(), streak }, react }
}

fn scrum(is_open: bool, date: &str) -> Scrum {
    Scrum { id: 1, is_open, scrum_date: date.to_string(), message_id: "900".to_string() }
}

fn at(day: u32) -> LocalDateTime {
    LocalDateTime { date: ScrumDate::new(2022, 11, day).unwrap(), hour: 9, timestamp: 0 }
}

#[test]
fn who_answered_is_owed_the_reward_of_the_raised_streak() {
    assert_eq!(
        settlement_for(&entry(0, ScrumReact::Available)).unwrap(),
        Settlement::Reward { amount: Ugocoin::from_ugocoin(1) }
    );
    assert_eq!(
        settlement_for(&entry(6, ScrumReact::Available)).unwrap(),
        Settlement::Reward { amount: Ugocoin::from_ugocoin(2) }
    );
    assert_eq!(
        settlement_for(&entry(6, ScrumReact::Unavailable)).unwrap(),
        Settlement::Reward { amount: Ugocoin::from_ugocoin(2) }
    );
    assert_eq!(
        settlement_for(&entry(13, ScrumReact::Unavailable)).unwrap(),
        Settlement::Reward { amount: Ugocoin::from_ugocoin(3) }
    );
}

#[test]
fn who_did_not_answer_is_owed_a_reset() {
    assert_eq!(settlement_for(&entry(0, ScrumReact::Unknown)).unwrap(), Settlement::Reset);
    assert_eq!(settlement_for(&entry(40, ScrumReact::Unknown)).unwrap(), Settlement::Reset);
    assert_eq!(settlement_for(&entry(i64::MAX, ScrumReact::Unknown)).unwrap(), Settlement::Reset);
}

#[test]
fn a_reward_beyond_all_accounts_is_a_failure() {
    let err = settlement_for(&entry(i64::MAX, ScrumReact::Available)).unwrap_err();
    assert!(matches!(err.error, InnerError::DatabaseError(_)));
    let err = settlement_for(&entry(i64::MAX - 1, ScrumReact::Unavailable)).unwrap_err();
    assert!(matches!(err.error, InnerError::DatabaseError(_)));
}

fn counts(num_available: usize, num_unavailable: usize, num_unknown: usize) -> ParsedScrumReacts {
    ParsedScrumReacts { availability: vec![], num_available, num_unavailable, num_unknown }
}

#[test]
fn only_a_decided_tally_closes_at_once() {
    assert_eq!(decisive_status(&counts(3, 0, 2)), Some(ScrumStatus::Possible));
    assert_eq!(decisive_status(&counts(0, 2, 3)), Some(ScrumStatus::Impossible));
    assert_eq!(decisive_status(&counts(3, 2, 0)), Some(ScrumStatus::Possible));
    assert_eq!(decisive_status(&counts(2, 1, 2)), None);
    assert_eq!(decisive_status(&counts(2, 1, 0)), None);
    assert_eq!(decisive_status(&counts(0, 0, 0)), None);
}

#[test]
fn the_open_scrum_of_the_day_takes_answers() {
    assert!(takes_answers(&scrum(true, "2022-11-27"), &at(27)).unwrap());
    assert!(!takes_answers(&scrum(true, "2022-11-27"), &at(28)).unwrap());
    assert!(!takes_answers(&scrum(false, "2022-11-27"), &at(27)).unwrap());
    assert!(!takes_answers(&scrum(false, "not a day"), &at(27)).unwrap());
    let err = takes_answers(&scrum(true, "not a day"), &at(27)).unwrap_err();
    assert!(matches!(err.error, InnerError::DateTimeParseError(_)));
}

#[test]
fn the_failure_of_taking_back_hides_that_of_the_row() {
    let err = open_failure(database_error("row"), Ok(()));
    assert_eq!(err.to_string(), " failed! (Database error: row)");
    let err = open_failure(database_error("row"), Err(discord_error("gone")));
    assert_eq!(err.to_string(), " failed! (Discord error: gone)");
}

#[test]
fn the_memo_of_a_reward_names_the_day() {
    assert_eq!(
        scrum_reward_memo(&scrum(true, "2022-11-27")).unwrap(),
        "Scrum reward for 2022-11-27"
    );
    assert_eq!(scrum_reward_memo(&scrum(false, "2023-1-5")).unwrap(), "Scrum reward for 2023-01-05");
    let err = scrum_reward_memo(&scrum(true, "")).unwrap_err();
    assert!(matches!(err.error, InnerError::DateTimeParseError(_)));
}

#[test]
fn a_transfer_is_checked_before_anything_is_touched() {
    let from = UgocoinAccount { id: 1, user_id: Some(1), balance: Ugocoin::from_ugocents(100) };
    assert!(check_transfer(&from, Ugocoin::from_ugocents(0)).is_ok());
    assert!(check_transfer(&from, Ugocoin::from_ugocents(100)).is_ok());
    let err = check_transfer(&from, Ugocoin::from_ugocents(101)).unwrap_err();
    assert!(matches!(err.error, InnerError::InsufficientFunds));
    let err = check_transfer(&from, Ugocoin::from_ugocents(-1)).unwrap_err();
    assert!(matches!(err.error, InnerError::NegativeTransfer));
    let broke = UgocoinAccount { id: 1, user_id: Some(1), balance: Ugocoin::from_ugocents(-5) };
    let err = check_transfer(&broke, Ugocoin::from_ugocents(0)).unwrap_err();
    assert!(matches!(err.error, InnerError::InsufficientFunds));
}

#[test]
fn only_the_two_thumbs_speak_of_availability() {
    let says = |emoji: &str| {
        get_availablity_from_react(&Reaction {
            emoji: ReactionEmoji::Unicode(emoji.to_string()),
            message_id: 1,
            user_id: None,
        })
    };
    assert_eq!(says("\u{1F44D}"), Some(true));
    assert_eq!(says("\u{1F44E}"), Some(false));
    assert_eq!(says("\u{1F44D}\u{1F3FD}"), None);
    assert_eq!(says("+1"), None);
    assert_eq!(says(""), None);
    let custom = Reaction { emoji: ReactionEmoji::Custom, message_id: 1, user_id: None };
    assert_eq!(get_availablity_from_react(&custom), None);
}
