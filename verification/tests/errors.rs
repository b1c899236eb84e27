use ugo_ii_bot::datetime::ScrumDate;
use ugo_ii_bot::error::Error;
use ugo_ii_bot::error::InnerError;
use ugo_ii_bot::error::WithContext;
use ugo_ii_bot::error::database_error;
use ugo_ii_bot::error::discord_error;

#[test]
fn a_failure_says_what_was_being_done() {
    let err = Error { error: InnerError::UserNotFound, ctx: "Fetching command user" };
    assert_eq!(err.to_string(), "Fetching command user failed! (User not found.)");
}

#[test]
fn every_kind_of_failure_has_its_words() {
    assert_eq!(database_error("disk full").to_string(), " failed! (Database error: disk full)");
    assert_eq!(discord_error("teapot").to_string(), " failed! (Discord error: teapot)");
    assert_eq!(
        Error::new(InnerError::CommandNotFound("dance".to_string())).to_string(),
        " failed! (Command not found: dance)"
    );
    assert_eq!(
        Error::new(InnerError::NegativeTransfer).to_string(),
        " failed! (Cannot transfer a negative amount.)"
    );
    assert_eq!(
        Error::new(InnerError::InsufficientFunds).to_string(),
        " failed! (Insufficient funds.)"
    );
    assert_eq!(InnerError::UserNotFound.to_string(), "User not found.");
}

#[test]
fn a_date_that_does_not_parse_is_told_in_the_words_of_the_parser() {
    let cause = ScrumDate::parse("2022-11-").unwrap_err();
    let err = Error::from(cause);
    assert!(matches!(err.error, InnerError::DateTimeParseError(_)));
    assert_eq!(err.ctx, "");
    assert_eq!(err.to_string(), " failed! (DateTime parse error: premature end of input)");
}

#[test]
fn a_number_that_does_not_parse_is_told_in_the_words_of_the_parser() {
    let cause = "x".parse::<u64>().unwrap_err();
    let err = Error { error: InnerError::IdParseError(cause), ctx: "Parsing today's scrum message ID" };
    assert_eq!(
        err.to_string(),
        "Parsing today's scrum message ID failed! (Error parsing ID from string: invalid digit found in string)"
    );
}

#[test]
fn context_is_put_on_failures_only() {
    let fine: Result<u8, Error> = Ok(3);
    assert_eq!(fine.with_context("Counting").unwrap(), 3);
    let bad: Result<u8, Error> = Err(Error::from(InnerError::InsufficientFunds));
    let err = bad.with_context("Paying").unwrap_err();
    assert!(matches!(err.error, InnerError::InsufficientFunds));
    assert_eq!(err.ctx, "Paying");
    let again: Result<u8, Error> = Err(err);
    assert_eq!(again.with_context("Paying twice").unwrap_err().ctx, "Paying twice");
}
