use vstd::prelude::*;
use vstd::std_specs::convert::FromSpecImpl;
use vstd::string::StringExecFns;

verus! {

/// `chrono::ParseError`, the failure of chrono's parsers. Nothing is known
/// of what a value of it holds.
#[verifier::external_type_specification]
#[verifier::external_body]
pub struct ExChronoParseError(chrono::ParseError);

/// `std::num::ParseIntError`, the failure of the integer parsers of std.
/// Nothing is known of what a value of it holds.
#[verifier::external_type_specification]
#[verifier::external_body]
pub struct ExParseIntError(std::num::ParseIntError);

/// What went wrong.
#[derive(Debug)]
pub enum InnerError {
    /// The store refused or failed an operation; the text says how.
    DatabaseError(String),
    /// The chat channel refused or failed an operation; the text says how.
    DiscordError(String),
    /// A stored scrum date could not be read as a date.
    DateTimeParseError(chrono::ParseError),
    /// A stored message id could not be read as a number.
    IdParseError(std::num::ParseIntError),
    /// No user is known under the given chat identity.
    UserNotFound,
    /// No command carries the given name.
    CommandNotFound(String),
    /// A transfer of a negative amount was asked for.
    NegativeTransfer,
    /// A transfer of more than the paying account holds was asked for.
    InsufficientFunds,
}

/// The kinds of failure, without what a failure carries.
#[derive(Debug, Clone, Copy, PartialEq, Eq, Structural)]
pub enum ErrorKind {
    Database,
    Discord,
    DateTimeParse,
    IdParse,
    UserNotFound,
    CommandNotFound,
    NegativeTransfer,
    InsufficientFunds,
}

/// A failure, with a few words on what was being done when it happened.
#[derive(Debug)]
pub struct Error {
    pub error: InnerError,
    pub ctx: &'static str,
}

/// Renders `Display` of a `chrono::ParseError`. Nothing is claimed of the text.
#[verifier::external_body]
fn date_error_text(err: &chrono::ParseError) -> (text: String) {
    err.to_string()
}

/// Renders `Display` of a `std::num::ParseIntError`. Nothing is claimed of the text.
#[verifier::external_body]
fn id_error_text(err: &std::num::ParseIntError) -> (text: String) {
    err.to_string()
}

impl InnerError {
    pub open spec fn kind(&self) -> ErrorKind {
        match self {
            InnerError::DatabaseError(_) => ErrorKind::Database,
            InnerError::DiscordError(_) => ErrorKind::Discord,
            InnerError::DateTimeParseError(_) => ErrorKind::DateTimeParse,
            InnerError::IdParseError(_) => ErrorKind::IdParse,
            InnerError::UserNotFound => ErrorKind::UserNotFound,
            InnerError::CommandNotFound(_) => ErrorKind::CommandNotFound,
            InnerError::NegativeTransfer => ErrorKind::NegativeTransfer,
            InnerError::InsufficientFunds => ErrorKind::InsufficientFunds,
        }
    }

    /// The words that open the description of this failure; for the kinds
    /// without a detail they are the whole description.
    pub open spec fn headline(&self) -> Seq<char> {
        match self {
            InnerError::DatabaseError(_) => "Database error: "@,
            InnerError::DiscordError(_) => "Discord error: "@,
            InnerError::DateTimeParseError(_) => "DateTime parse error: "@,
            InnerError::IdParseError(_) => "Error parsing ID from string: "@,
            InnerError::UserNotFound => "User not found."@,
            InnerError::CommandNotFound(_) => "Command not found: "@,
            InnerError::NegativeTransfer => "Cannot transfer a negative amount."@,
            InnerError::InsufficientFunds => "Insufficient funds."@,
        }
    }

    /// The detail that follows the headline, where this library knows it: the
    /// text a failure carries. Of a date or id that did not parse, the detail
    /// is the parser's own wording.
    pub open spec fn known_detail(&self) -> Option<Seq<char>> {
        match self {
            InnerError::DatabaseError(text) => Some(text@),
            InnerError::DiscordError(text) => Some(text@),
            InnerError::DateTimeParseError(_) => None,
            InnerError::IdParseError(_) => None,
            InnerError::UserNotFound => Some(Seq::empty()),
            InnerError::CommandNotFound(name) => Some(name@),
            InnerError::NegativeTransfer => Some(Seq::empty()),
            InnerError::InsufficientFunds => Some(Seq::empty()),
        }
    }

    /// The description of this failure: its headline, then its detail.
    pub fn to_string(&self) -> (text: String)
        ensures
            match self.known_detail() {
                Some(detail) => text@ == self.headline() + detail,
                None => exists|detail: Seq<char>| text@ == self.headline() + detail,
            },
    {
        let mut text = match self {
            InnerError::DatabaseError(_) => String::from_str("Database error: "),
            InnerError::DiscordError(_) => String::from_str("Discord error: "),
            InnerError::DateTimeParseError(_) => String::from_str("DateTime parse error: "),
            InnerError::IdParseError(_) => String::from_str("Error parsing ID from string: "),
            InnerError::UserNotFound => String::from_str("User not found."),
            InnerError::CommandNotFound(_) => String::from_str("Command not found: "),
            InnerError::NegativeTransfer => String::from_str("Cannot transfer a negative amount."),
            InnerError::InsufficientFunds => String::from_str("Insufficient funds."),
        };
        let detail = match self {
            InnerError::DatabaseError(detail) => detail.clone(),
            InnerError::DiscordError(detail) => detail.clone(),
            InnerError::DateTimeParseError(err) => date_error_text(err),
            InnerError::IdParseError(err) => id_error_text(err),
            InnerError::CommandNotFound(name) => name.clone(),
            _ => String::new(),
        };
        assert(text@ == self.headline());
        text.append(detail.as_str());
        assert(text@ == self.headline() + detail@);
        text
    }
}

impl Error {
    /// A failure that nothing has been said about yet.
    pub fn new(error: InnerError) -> (err: Error)
        ensures
            err.error == error,
            err.ctx@ == Seq::<char>::empty(),
    {
        proof {
            reveal_strlit("");
        }
        Error { error, ctx: "" }
    }

    /// The line that reports this failure: what was being done, and what went wrong.
    pub fn to_string(&self) -> (text: String)
        ensures
            match self.error.known_detail() {
                Some(detail) => text@ == self.ctx@ + " failed! ("@ + self.error.headline() + detail
                    + ")"@,
                None => exists|detail: Seq<char>|
                    text@ == self.ctx@ + " failed! ("@ + self.error.headline() + detail + ")"@,
            },
    {
        let inner = self.error.to_string();
        let mut text = String::from_str(self.ctx);
        text.append(" failed! (");
        text.append(inner.as_str());
        text.append(")");
        proof {
            if self.error.known_detail() is None {
                let detail = choose|detail: Seq<char>| inner@ == self.error.headline() + detail;
                assert(text@ =~= self.ctx@ + " failed! ("@ + self.error.headline() + detail + ")"@);
            } else {
                let detail = self.error.known_detail().unwrap();
                assert(text@ =~= self.ctx@ + " failed! ("@ + self.error.headline() + detail + ")"@);
            }
        }
        text
    }
}

impl From<InnerError> for Error {
    fn from(inner: InnerError) -> (err: Error) {
        Error { error: inner, ctx: "" }
    }
}

impl FromSpecImpl<InnerError> for Error {
    open spec fn obeys_from_spec() -> bool {
        true
    }

    open spec fn from_spec(inner: InnerError) -> Error {
        Error { error: inner, ctx: "" }
    }
}

impl From<chrono::ParseError> for Error {
    fn from(err: chrono::ParseError) -> (told: Error) {
        Error { error: InnerError::DateTimeParseError(err), ctx: "" }
    }
}

impl FromSpecImpl<chrono::ParseError> for Error {
    open spec fn obeys_from_spec() -> bool {
        true
    }

    open spec fn from_spec(err: chrono::ParseError) -> Error {
        Error { error: InnerError::DateTimeParseError(err), ctx: "" }
    }
}

/// The kind of failure that a result stands for; none where it is a success.
pub open spec fn failure<T>(res: Result<T, Error>) -> Option<ErrorKind> {
    match res {
        Ok(_) => None,
        Err(err) => Some(err.error.kind()),
    }
}

/// A failure of the store, with the store's words for it.
pub fn database_error(text: &str) -> (err: Error)
    ensures
        err.error matches InnerError::DatabaseError(told) && told@ == text@,
        err.ctx@ == Seq::<char>::empty(),
{
    Error::new(InnerError::DatabaseError(String::from_str(text)))
}

/// A failure of the channel, with the channel's words for it.
pub fn discord_error(text: &str) -> (err: Error)
    ensures
        err.error matches InnerError::DiscordError(told) && told@ == text@,
        err.ctx@ == Seq::<char>::empty(),
{
    Error::new(InnerError::DiscordError(String::from_str(text)))
}

/// Says what was being done when a result turned out a failure.
pub trait WithContext<T> {
    fn with_context(self, ctx: &'static str) -> (res: Result<T, Error>);
}

impl<T> WithContext<T> for Result<T, Error> {
    fn with_context(self, ctx: &'static str) -> (res: Result<T, Error>)
        ensures
            match (self, res) {
                (Ok(value), Ok(kept)) => value == kept,
                (Err(err), Err(told)) => told.error == err.error && told.ctx == ctx,
                _ => false,
            },
    {
        match self {
            Ok(value) => Ok(value),
            Err(err) => Err(Error { error: err.error, ctx }),
        }
    }
}

} // verus!
