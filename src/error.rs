//! Errors of loading and parsing a configuration.
use vstd::prelude::*;

verus! {

/// Why a configuration could not be loaded.
#[derive(Debug, Clone, PartialEq)]
pub enum Error {
    /// A configuration file does not exist.
    ConfigNotFound,
    /// Another input/output failure, with its description.
    Io(String),
    /// A configuration file is malformed.
    InvalidConfig(ParseError),
}

/// A malformed configuration: the file's path and the 1-based number of the
/// offending line.
#[derive(Debug, Clone, PartialEq)]
pub enum ParseError {
    /// An unknown key name, or an empty binding.
    UnknownSymbol(String, u32),
    /// A token before the key that names no modifier.
    InvalidModifier(String, u32),
    /// Kept for key names that are known but cannot be bound; nothing yields it yet.
    InvalidKeysym(String, u32),
}

/// What an `Error` holds, with paths and descriptions as characters.
pub enum ErrorView {
    ConfigNotFound,
    Io(Seq<char>),
    UnknownSymbol(Seq<char>, u32),
    InvalidModifier(Seq<char>, u32),
    InvalidKeysym(Seq<char>, u32),
}

impl View for Error {
    type V = ErrorView;

    open spec fn view(&self) -> ErrorView {
        match self {
            Error::ConfigNotFound => ErrorView::ConfigNotFound,
            Error::Io(d) => ErrorView::Io(d@),
            Error::InvalidConfig(ParseError::UnknownSymbol(p, n)) => ErrorView::UnknownSymbol(p@, *n),
            Error::InvalidConfig(ParseError::InvalidModifier(p, n)) => ErrorView::InvalidModifier(
                p@,
                *n,
            ),
            Error::InvalidConfig(ParseError::InvalidKeysym(p, n)) => ErrorView::InvalidKeysym(p@, *n),
        }
    }
}

/// What `{:?}` writes for a text: the text quoted, with its special characters escaped.
pub uninterp spec fn debug_text_of(s: Seq<char>) -> Seq<char>;

/// Relies on `<str as Debug>::fmt`: the quoted and escaped form depends on the
/// characters alone.
#[verifier::external_body]
fn debug_text(s: &str) -> (r: String)
    ensures
        r@ == debug_text_of(s@),
{
    format!("{:?}", s)
}

/// The decimal digit for `d < 10`.
pub open spec fn digit_char(d: nat) -> char {
    (('0' as u32) + d) as char
}

/// The decimal numeral of `n`, without leading zeros.
pub open spec fn decimal_of(n: nat) -> Seq<char>
    decreases n,
{
    if n < 10 {
        seq![digit_char(n)]
    } else {
        decimal_of(n / 10).push(digit_char(n % 10))
    }
}

/// Relies on `u32::to_string`: the decimal numeral of `n`.
#[verifier::external_body]
fn decimal(n: u32) -> (r: String)
    ensures
        r@ == decimal_of(n as nat),
{
    n.to_string()
}

/// The message for a malformed line: the quoted path, what is wrong, the line number.
pub open spec fn parse_message_of(path: Seq<char>, what: Seq<char>, line_nr: u32) -> Seq<char> {
    "Error parsing config file "@ + debug_text_of(path) + ". "@ + what + " at line "@
        + decimal_of(line_nr as nat) + "."@
}

/// The message shown to a user for an error.
pub open spec fn message_of(e: ErrorView) -> Seq<char> {
    match e {
        ErrorView::ConfigNotFound => "Config file not found."@,
        ErrorView::Io(detail) => "I/O Error while parsing config file: "@ + detail,
        ErrorView::UnknownSymbol(p, n) => parse_message_of(p, "Unknown symbol"@, n),
        ErrorView::InvalidModifier(p, n) => parse_message_of(p, "Invalid modifier"@, n),
        ErrorView::InvalidKeysym(p, n) => parse_message_of(p, "Invalid keysym"@, n),
    }
}

/// The message for a malformed line.
fn parse_message(path: &String, what: &str, line_nr: u32) -> (r: String)
    ensures
        r@ == parse_message_of(path@, what@, line_nr),
{
    let quoted = debug_text(path.as_str());
    let number = decimal(line_nr);
    String::from_str("Error parsing config file ").concat(quoted.as_str()).concat(". ").concat(
        what,
    ).concat(" at line ").concat(number.as_str()).concat(".")
}

impl Error {
    /// The message shown to a user for this error.
    pub fn message(&self) -> (r: String)
        ensures
            r@ == message_of(self@),
    {
        match self {
            Error::ConfigNotFound => String::from_str("Config file not found."),
            Error::Io(detail) => String::from_str("I/O Error while parsing config file: ").concat(
                detail.as_str(),
            ),
            Error::InvalidConfig(ParseError::UnknownSymbol(p, n)) => parse_message(
                p,
                "Unknown symbol",
                *n,
            ),
            Error::InvalidConfig(ParseError::InvalidModifier(p, n)) => parse_message(
                p,
                "Invalid modifier",
                *n,
            ),
            Error::InvalidConfig(ParseError::InvalidKeysym(p, n)) => parse_message(
                p,
                "Invalid keysym",
                *n,
            ),
        }
    }
}

} // verus!
