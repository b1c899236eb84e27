use ugo_ii_bot::channel::Channel;
use ugo_ii_bot::channel::Marker;
use ugo_ii_bot::datetime::LocalDateTime;
use ugo_ii_bot::datetime::ScrumDate;
use ugo_ii_bot::error::InnerError;
use ugo_ii_bot::scrum::Scrum;
use ugo_ii_bot::scrum::ScrumReact;
use ugo_ii_bot::scrum::ScrumStatus;
use ugo_ii_bot::scrum::calculate_scrum_reward;
use ugo_ii_bot::scrum::checked_scrum_reward;
use ugo_ii_bot::scrum::date_to_scrum_db_format;
use ugo_ii_bot::scrum::format_scrum_close_notif;
use ugo_ii_bot::scrum::open::notify_scrum;
use ugo_ii_bot::scrum::reactions::parse_scrum_reactions;
use ugo_ii_bot::scrum::scrum_closed_message;
use ugo_ii_bot::scrum::scrum_notify_string;
use ugo_ii_bot::scrum::should_create_scrum;
use ugo_ii_bot::scrum::should_force_close_scrum;
use ugo_ii_bot::scrum::table::create_scrum_row;
use ugo_ii_bot::scrum::table::get_scrum_for_date;
use ugo_ii_bot::scrum::table::get_scrum_from_message;
use ugo_ii_bot::scrum::tally::tally;
use ugo_ii_bot::storage::DiscordLink;
use ugo_ii_bot::storage::Storage;
use ugo_ii_bot::user::User;

fn at(year: i32, month: u32, day: u32, hour: u32) -> LocalDateTime {
    LocalDateTime { date: ScrumDate::new(year, month, day).unwrap(), hour, timestamp: 1_669_500_000 }
}

fn scrum(is_open: bool) -> Scrum {
    Scrum {
        id: 1,
        is_open,
        scrum_date: "2022-11-27".to_string(),
        message_id: "1046000000000000001".to_string(),
    }
}

#[test]
fn reward_grows_by_a_coin_every_seven_scrums() {
    assert_eq!(calculate_scrum_reward(0).as_ugocents(), 100);
    assert_eq!(calculate_scrum_reward(6).as_ugocents(), 100);
    assert_eq!(calculate_scrum_reward(7).as_ugocents(), 200);
    assert_eq!(calculate_scrum_reward(13).as_ugocents(), 200);
    assert_eq!(calculate_scrum_reward(14).as_ugocents(), 300);
    assert_eq!(calculate_scrum_reward(700).as_ugocents(), 10_100);
}

#[test]
fn reward_rounds_a_negative_streak_down() {
    assert_eq!(checked_scrum_reward(-1).unwrap().as_ugocents(), 0);
    assert_eq!(checked_scrum_reward(-7).unwrap().as_ugocents(), 0);
    assert_eq!(checked_scrum_reward(-8).unwrap().as_ugocents(), -100);
}

#[test]
fn reward_is_refused_where_no_account_could_hold_it() {
    assert!(checked_scrum_reward(i64::MAX).is_none());
    assert!(checked_scrum_reward(i64::MIN).is_none());
    assert_eq!(
        checked_scrum_reward(645_636_042_579_834_305).unwrap().as_ugocents(),
        9_223_372_036_854_775_800
    );
    assert!(checked_scrum_reward(645_636_042_579_834_306).is_none());
}

#[test]
fn a_scrum_is_created_from_three_in_the_morning() {
    assert!(!should_create_scrum(&at(2022, 11, 27, 0), None));
    assert!(!should_create_scrum(&at(2022, 11, 27, 2), None));
    assert!(should_create_scrum(&at(2022, 11, 27, 3), None));
    assert!(should_create_scrum(&at(2022, 11, 27, 23), None));
}

#[test]
fn a_day_that_has_a_scrum_gets_no_other() {
    assert!(!should_create_scrum(&at(2022, 11, 27, 3), Some(&scrum(true))));
    assert!(!should_create_scrum(&at(2022, 11, 27, 20), Some(&scrum(false))));
}

#[test]
fn an_open_scrum_is_closed_from_four_in_the_afternoon() {
    let open = scrum(true);
    assert!(should_force_close_scrum(&at(2022, 11, 27, 15), Some(&open)).is_none());
    assert_eq!(should_force_close_scrum(&at(2022, 11, 27, 16), Some(&open)), Some(&open));
    assert_eq!(should_force_close_scrum(&at(2022, 11, 27, 23), Some(&open)), Some(&open));
}

#[test]
fn a_closed_scrum_is_not_closed_again() {
    assert!(should_force_close_scrum(&at(2022, 11, 27, 16), Some(&scrum(false))).is_none());
    assert!(should_force_close_scrum(&at(2022, 11, 27, 16), None).is_none());
}

#[test]
fn the_day_of_a_scrum_is_read_from_its_row() {
    assert_eq!(scrum(true).date().unwrap(), ScrumDate { year: 2022, month: 11, day: 27 });
    let mut early = scrum(true);
    early.scrum_date = "2023-01-05".to_string();
    assert_eq!(early.date().unwrap(), ScrumDate { year: 2023, month: 1, day: 5 });
}

#[test]
fn a_day_that_is_none_is_an_error() {
    for text in ["", "yesterday", "2022-02-30", "2022-13-01", "2022/11/27", "2022-11-27 10:00"] {
        let mut bad = scrum(true);
        bad.scrum_date = text.to_string();
        let err = bad.date().unwrap_err();
        assert!(matches!(err.error, InnerError::DateTimeParseError(_)), "{}", text);
    }
}

#[test]
fn the_poll_of_a_scrum_is_read_from_its_row() {
    assert_eq!(scrum(true).message_id().unwrap(), 1_046_000_000_000_000_001);
    let mut other = scrum(true);
    other.message_id = "+42".to_string();
    assert_eq!(other.message_id().unwrap(), 42);
    other.message_id = "007".to_string();
    assert_eq!(other.message_id().unwrap(), 7);
    other.message_id = "18446744073709551615".to_string();
    assert_eq!(other.message_id().unwrap(), u64::MAX);
}

#[test]
fn a_poll_that_is_no_number_is_an_error() {
    for text in ["", "+", "-1", "12a", " 12", "1_000", "18446744073709551616", "++1"] {
        let mut bad = scrum(true);
        bad.message_id = text.to_string();
        let err = bad.message_id().unwrap_err();
        assert!(matches!(err.error, InnerError::IdParseError(_)), "{}", text);
    }
}

#[test]
fn days_are_written_with_hyphens_and_two_digits() {
    assert_eq!(date_to_scrum_db_format(&at(2022, 11, 27, 3)), "2022-11-27");
    assert_eq!(date_to_scrum_db_format(&at(2023, 1, 5, 3)), "2023-01-05");
    assert_eq!(date_to_scrum_db_format(&at(987, 6, 5, 3)), "0987-06-05");
    assert_eq!(date_to_scrum_db_format(&at(0, 1, 1, 3)), "0000-01-01");
    assert_eq!(date_to_scrum_db_format(&at(12345, 12, 31, 3)), "+12345-12-31");
    assert_eq!(date_to_scrum_db_format(&at(-5, 2, 28, 3)), "-0005-02-28");
    assert_eq!(date_to_scrum_db_format(&at(-12345, 2, 28, 3)), "-12345-02-28");
}

#[test]
fn the_closing_message_names_who_is_not_available() {
    let roster = vec![
        User { id: 1, display_name: "ann".to_string(), streak: 0 },
        User { id: 2, display_name: "bob".to_string(), streak: 0 },
        User { id: 3, display_name: "cy".to_string(), streak: 0 },
        User { id: 4, display_name: "di".to_string(), streak: 0 },
        User { id: 5, display_name: "ed".to_string(), streak: 0 },
    ];
    let parsed = tally(&roster, &vec![1, 3, 5], &vec![4]);
    assert_eq!(
        format_scrum_close_notif(&parsed, ScrumStatus::Possible),
        "@everyone SCRUM POSSIBLE: 3/5 available for scrum.\n\nNot available:\nbob\ndi\n"
    );
    let parsed = tally(&roster, &vec![1], &vec![4, 2]);
    assert_eq!(
        format_scrum_close_notif(&parsed, ScrumStatus::Impossible),
        "@everyone SCRUM FAILED: 1/5 available for scrum.\n\nNot available:\nbob\ncy\ndi\ned\n"
    );
    let parsed = tally(&roster, &vec![], &vec![]);
    assert_eq!(
        format_scrum_close_notif(&parsed, ScrumStatus::Unknown),
        "@everyone SCRUM FAILED: 0/5 available for scrum.\n\nNot available:\nann\nbob\ncy\ndi\ned\n"
    );
}

#[test]
fn the_closing_message_of_a_full_house_names_nobody() {
    let roster: Vec<User> = (1..=12)
        .map(|id| User { id, display_name: format!("u{}", id), streak: 0 })
        .collect();
    let all: Vec<i64> = (1..=12).collect();
    let parsed = tally(&roster, &all, &vec![]);
    assert_eq!(
        format_scrum_close_notif(&parsed, ScrumStatus::Possible),
        "@everyone SCRUM POSSIBLE: 12/12 available for scrum.\n\nNot available:\n"
    );
}

#[test]
fn a_row_is_written_for_a_new_scrum() {
    let mut db = Storage::new();
    create_scrum_row(&mut db, &at(2022, 11, 27, 3), 1_046_000_000_000_000_001).unwrap();
    assert_eq!(db.scrums, vec![scrum(true)]);
    create_scrum_row(&mut db, &at(2022, 11, 28, 3), 77).unwrap();
    assert_eq!(db.scrums.len(), 2);
    assert_eq!(db.scrums[1].id, 2);
    assert_eq!(db.scrums[1].scrum_date, "2022-11-28");
    assert_eq!(db.scrums[1].message_id, "77");
    assert!(db.scrums[1].is_open);
}

#[test]
fn a_day_gets_one_row_at_most() {
    let mut db = Storage::new();
    create_scrum_row(&mut db, &at(2022, 11, 27, 3), 5).unwrap();
    let err = create_scrum_row(&mut db, &at(2022, 11, 27, 9), 6).unwrap_err();
    assert!(matches!(err.error, InnerError::DatabaseError(_)));
    assert_eq!(db.scrums.len(), 1);
    assert_eq!(db.scrums[0].message_id, "5");
}

#[test]
fn scrums_are_found_by_day_and_by_poll() {
    let mut db = Storage::new();
    create_scrum_row(&mut db, &at(2022, 11, 27, 3), 5).unwrap();
    create_scrum_row(&mut db, &at(2022, 11, 28, 3), 6).unwrap();
    assert_eq!(get_scrum_for_date(&db, &at(2022, 11, 28, 20)).unwrap().unwrap().id, 2);
    assert_eq!(get_scrum_for_date(&db, &at(2022, 11, 27, 0)).unwrap().unwrap().id, 1);
    assert!(get_scrum_for_date(&db, &at(2022, 11, 29, 3)).unwrap().is_none());
    assert_eq!(get_scrum_from_message(&db, 6).unwrap().unwrap().id, 2);
    assert_eq!(get_scrum_from_message(&db, 5).unwrap().unwrap().scrum_date, "2022-11-27");
    assert!(get_scrum_from_message(&db, 56).unwrap().is_none());
}

#[test]
fn a_scrum_finds_its_poll_again() {
    let mut db = Storage::new();
    for id in [0, 9, 10, 1_046_000_000_000_000_001, u64::MAX] {
        db.scrums.clear();
        create_scrum_row(&mut db, &at(2022, 11, 27, 3), id).unwrap();
        assert_eq!(db.scrums[0].message_id().unwrap(), id);
        assert_eq!(db.scrums[0].date().unwrap(), ScrumDate { year: 2022, month: 11, day: 27 });
    }
}

#[test]
fn opening_posts_the_poll_with_both_markers() {
    let mut db = Storage::new();
    let mut channel = Channel::new(900);
    notify_scrum(&mut db, &at(2022, 11, 27, 3), &mut channel).unwrap();
    assert_eq!(channel.messages.len(), 1);
    let poll = &channel.messages[0];
    assert_eq!(poll.id, 900);
    assert_eq!(poll.content, scrum_notify_string());
    assert_eq!(
        poll.content,
        "@everyone\nUGO-BOT SCRUMMONS: React if you are available for scrum!"
    );
    assert!(poll.accept_attached);
    assert!(poll.decline_attached);
    assert!(poll.accepts.is_empty());
    assert!(poll.declines.is_empty());
    assert_eq!(channel.next_id, 901);
    assert_eq!(db.scrums.len(), 1);
    assert!(db.scrums[0].is_open);
    assert_eq!(db.scrums[0].scrum_date, "2022-11-27");
    assert_eq!(db.scrums[0].message_id, "900");
}

#[test]
fn opening_again_takes_the_second_poll_back() {
    let mut db = Storage::new();
    let mut channel = Channel::new(900);
    notify_scrum(&mut db, &at(2022, 11, 27, 3), &mut channel).unwrap();
    let messages = channel.messages.clone();
    let err = notify_scrum(&mut db, &at(2022, 11, 27, 4), &mut channel).unwrap_err();
    assert!(matches!(err.error, InnerError::DatabaseError(_)));
    assert_eq!(db.scrums.len(), 1);
    assert_eq!(db.scrums[0].message_id, "900");
    assert_eq!(channel.messages, messages);
}

#[test]
fn opening_fails_where_the_channel_takes_no_message() {
    let mut db = Storage::new();
    let mut channel = Channel::new(u64::MAX);
    let err = notify_scrum(&mut db, &at(2022, 11, 27, 3), &mut channel).unwrap_err();
    assert!(matches!(err.error, InnerError::DiscordError(_)));
    assert!(db.scrums.is_empty());
    assert!(channel.messages.is_empty());
}

fn five() -> Storage {
    let mut db = Storage::new();
    for id in 1..=5 {
        db.users.push(User { id, display_name: format!("user{}", id), streak: 0 });
        db.users_discord_ids.push(DiscordLink { discord_id: 100 + id as u64, user_id: id });
    }
    db
}

#[test]
fn the_tally_is_read_off_the_poll() {
    let db = five();
    let mut channel = Channel::new(900);
    let poll = channel.send_message("poll").unwrap();
    channel.add_reaction(poll, Marker::Accept, 101).unwrap();
    channel.add_reaction(poll, Marker::Accept, 103).unwrap();
    channel.add_reaction(poll, Marker::Decline, 104).unwrap();
    // Somebody who is no user, and somebody with both markers.
    channel.add_reaction(poll, Marker::Accept, 999).unwrap();
    channel.add_reaction(poll, Marker::Decline, 103).unwrap();
    let parsed = parse_scrum_reactions(&db, &channel, poll).unwrap();
    assert_eq!(parsed.num_available, 1);
    assert_eq!(parsed.num_unavailable, 2);
    assert_eq!(parsed.num_unknown, 2);
    let reacts: Vec<(i64, ScrumReact)> =
        parsed.availability.iter().map(|entry| (entry.user.id, entry.react)).collect();
    assert_eq!(
        reacts,
        vec![
            (1, ScrumReact::Available),
            (2, ScrumReact::Unknown),
            (3, ScrumReact::Unavailable),
            (4, ScrumReact::Unavailable),
            (5, ScrumReact::Unknown),
        ]
    );
}

#[test]
fn a_poll_that_is_gone_cannot_be_tallied() {
    let db = five();
    let channel = Channel::new(900);
    let err = parse_scrum_reactions(&db, &channel, 900).unwrap_err();
    assert!(matches!(err.error, InnerError::DiscordError(_)));
}

#[test]
fn the_closed_notice_is_fixed() {
    assert_eq!(scrum_closed_message(), "Voting is closed for this scrum.");
}
