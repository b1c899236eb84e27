use ugo_ii_bot::datetime::LocalDateTime;
use ugo_ii_bot::datetime::ScrumDate;
use ugo_ii_bot::error::InnerError;
use ugo_ii_bot::scrum::Scrum;
use ugo_ii_bot::scrum_resp::Reaction;
use ugo_ii_bot::scrum_resp::ReactionEmoji;
use ugo_ii_bot::scrum_resp::ScrumReact;
use ugo_ii_bot::scrum_resp::ScrumResponse;
use ugo_ii_bot::scrum_resp::create_scrum_response;
use ugo_ii_bot::scrum_resp::parse_react;
use ugo_ii_bot::scrum_resp::respond_scrum;
use ugo_ii_bot::scrum_resp::scrum_accept_emoji;
use ugo_ii_bot::scrum_resp::scrum_decline_emoji;
use ugo_ii_bot::scrum_resp::scrum_response_exists;
use ugo_ii_bot::scrum_resp::unrespond_scrum;
use ugo_ii_bot::scrum_resp::update_scrum_response;
use ugo_ii_bot::storage::DiscordLink;
use ugo_ii_bot::storage::Storage;
use ugo_ii_bot::user::User;

fn at(timestamp: i64) -> LocalDateTime {
    LocalDateTime { date: ScrumDate::new(2022, 11, 27).unwrap(), hour: 9, timestamp }
}

fn scrum(id: i64, is_open: bool, message_id: &str) -> Scrum {
    Scrum { id, is_open, scrum_date: "2022-11-27".to_string(), message_id: message_id.to_string() }
}

fn user(id: i64) -> User {
    User { id, display_name: format!("user{}", id), streak: 0 }
}

fn says(user_id: i64, available: bool) -> ScrumReact {
    ScrumReact { available, user: user(user_id), scrum: scrum(1, true, "900") }
}

fn row(scrum_id: i64, user_id: i64, available: bool, response_time: i64) -> ScrumResponse {
    ScrumResponse { scrum_id, user_id, available, response_time }
}

#[test]
fn a_first_answer_is_written() {
    let mut db = Storage::new();
    respond_scrum(&mut db, &says(7, true), &at(50)).unwrap();
    assert_eq!(db.scrum_responses, vec![row(1, 7, true, 50)]);
}

#[test]
fn a_second_answer_takes_the_place_of_the_first() {
    let mut db = Storage::new();
    respond_scrum(&mut db, &says(7, true), &at(50)).unwrap();
    respond_scrum(&mut db, &says(8, false), &at(60)).unwrap();
    respond_scrum(&mut db, &says(7, false), &at(70)).unwrap();
    assert_eq!(db.scrum_responses, vec![row(1, 7, false, 70), row(1, 8, false, 60)]);
}

#[test]
fn taking_back_an_answer_removes_it() {
    let mut db = Storage::new();
    respond_scrum(&mut db, &says(7, true), &at(50)).unwrap();
    respond_scrum(&mut db, &says(8, true), &at(60)).unwrap();
    unrespond_scrum(&mut db, &says(7, true)).unwrap();
    assert_eq!(db.scrum_responses, vec![row(1, 8, true, 60)]);
}

#[test]
fn taking_back_what_was_never_said_changes_nothing() {
    let mut db = Storage::new();
    unrespond_scrum(&mut db, &says(7, true)).unwrap();
    assert!(db.scrum_responses.is_empty());
    respond_scrum(&mut db, &says(8, true), &at(60)).unwrap();
    unrespond_scrum(&mut db, &says(7, true)).unwrap();
    unrespond_scrum(&mut db, &says(7, false)).unwrap();
    assert_eq!(db.scrum_responses, vec![row(1, 8, true, 60)]);
}

#[test]
fn taking_back_the_other_marker_keeps_the_answer_that_stands() {
    let mut db = Storage::new();
    // Both markers are put on, the second answer stands; then the first marker comes off.
    respond_scrum(&mut db, &says(7, true), &at(50)).unwrap();
    respond_scrum(&mut db, &says(7, false), &at(60)).unwrap();
    unrespond_scrum(&mut db, &says(7, true)).unwrap();
    assert_eq!(db.scrum_responses, vec![row(1, 7, false, 60)]);
    unrespond_scrum(&mut db, &says(7, false)).unwrap();
    assert!(db.scrum_responses.is_empty());
}

#[test]
fn answers_to_other_scrums_are_left_alone() {
    let mut db = Storage::new();
    db.scrum_responses.push(row(2, 7, true, 10));
    respond_scrum(&mut db, &says(7, true), &at(50)).unwrap();
    unrespond_scrum(&mut db, &says(7, true)).unwrap();
    assert_eq!(db.scrum_responses, vec![row(2, 7, true, 10)]);
}

#[test]
fn an_answer_is_on_record_or_not() {
    let mut db = Storage::new();
    let scrum = scrum(1, true, "900");
    assert!(!scrum_response_exists(&db, &scrum, &user(7)).unwrap());
    create_scrum_response(&mut db, &scrum, &user(7), true, 5).unwrap();
    assert!(scrum_response_exists(&db, &scrum, &user(7)).unwrap());
    assert!(!scrum_response_exists(&db, &scrum, &user(8)).unwrap());
}

#[test]
fn a_user_has_one_answer_to_a_scrum_at_most() {
    let mut db = Storage::new();
    let scrum = scrum(1, true, "900");
    create_scrum_response(&mut db, &scrum, &user(7), true, 5).unwrap();
    let err = create_scrum_response(&mut db, &scrum, &user(7), false, 6).unwrap_err();
    assert!(matches!(err.error, InnerError::DatabaseError(_)));
    assert_eq!(db.scrum_responses, vec![row(1, 7, true, 5)]);
}

#[test]
fn updating_an_answer_that_is_not_there_changes_nothing() {
    let mut db = Storage::new();
    let scrum = scrum(1, true, "900");
    create_scrum_response(&mut db, &scrum, &user(8), true, 5).unwrap();
    update_scrum_response(&mut db, &scrum, &user(7), false, 6).unwrap();
    assert_eq!(db.scrum_responses, vec![row(1, 8, true, 5)]);
    update_scrum_response(&mut db, &scrum, &user(8), false, 7).unwrap();
    assert_eq!(db.scrum_responses, vec![row(1, 8, false, 7)]);
}

fn polled() -> Storage {
    let mut db = Storage::new();
    db.users.push(user(7));
    db.users_discord_ids.push(DiscordLink { discord_id: 107, user_id: 7 });
    db.scrums.push(scrum(1, false, "800"));
    db.scrums.push(Scrum {
        id: 2,
        is_open: true,
        scrum_date: "2022-11-28".to_string(),
        message_id: "900".to_string(),
    });
    db
}

fn reaction(emoji: &str, message_id: u64, user_id: Option<u64>) -> Reaction {
    Reaction { emoji: ReactionEmoji::Unicode(emoji.to_string()), message_id, user_id }
}

#[test]
fn thumbs_on_an_open_poll_are_answers() {
    let db = polled();
    let up = parse_react(&db, &reaction("\u{1F44D}", 900, Some(107))).unwrap().unwrap();
    assert!(up.available);
    assert_eq!(up.user.id, 7);
    assert_eq!(up.scrum.id, 2);
    let down = parse_react(&db, &reaction("\u{1F44E}", 900, Some(107))).unwrap().unwrap();
    assert!(!down.available);
    assert_eq!(scrum_accept_emoji(), "\u{1F44D}");
    assert_eq!(scrum_decline_emoji(), "\u{1F44E}");
}

#[test]
fn anything_else_is_no_answer() {
    let db = polled();
    assert!(parse_react(&db, &reaction("\u{1F389}", 900, Some(107))).unwrap().is_none());
    assert!(parse_react(&db, &reaction("", 900, Some(107))).unwrap().is_none());
    let custom = Reaction { emoji: ReactionEmoji::Custom, message_id: 900, user_id: Some(107) };
    assert!(parse_react(&db, &custom).unwrap().is_none());
    // Another message, a closed scrum, nobody, a stranger.
    assert!(parse_react(&db, &reaction("\u{1F44D}", 901, Some(107))).unwrap().is_none());
    assert!(parse_react(&db, &reaction("\u{1F44D}", 800, Some(107))).unwrap().is_none());
    assert!(parse_react(&db, &reaction("\u{1F44D}", 900, None)).unwrap().is_none());
    assert!(parse_react(&db, &reaction("\u{1F44D}", 900, Some(108))).unwrap().is_none());
}
