//! The ways in which an annotation can be malformed.

use vstd::prelude::*;

verus! {

/// Why a token list is not of the form `key = value [, key = value]*`.
#[derive(Debug, Clone, PartialEq, Eq)]
pub enum ParseError {
    /// The token after the key is missing (`found` is `None`) or is not `=`.
    ExpectedEquals { key: String, found: Option<String> },
    /// Nothing follows an `=`.
    MissingValue,
    /// The token after a value is not `,`.
    ExpectedComma,
    /// Nothing follows a `,`.
    TrailingComma,
}

/// The mathematical value of a [`ParseError`].
pub enum ParseErrorView {
    ExpectedEquals { key: Seq<char>, found: Option<Seq<char>> },
    MissingValue,
    ExpectedComma,
    TrailingComma,
}

impl View for ParseError {
    type V = ParseErrorView;

    open spec fn view(&self) -> ParseErrorView {
        match self {
            ParseError::ExpectedEquals { key, found } => ParseErrorView::ExpectedEquals {
                key: key@,
                found: match found {
                    Some(token) => Some(token@),
                    None => None,
                },
            },
            ParseError::MissingValue => ParseErrorView::MissingValue,
            ParseError::ExpectedComma => ParseErrorView::ExpectedComma,
            ParseError::TrailingComma => ParseErrorView::TrailingComma,
        }
    }
}

impl ParseErrorView {
    /// The diagnostic shown for this error.
    pub open spec fn message(self) -> Seq<char> {
        match self {
            ParseErrorView::ExpectedEquals { key, found: None } => "Expected '=' after '"@ + key
                + "'"@,
            ParseErrorView::ExpectedEquals { key, found: Some(token) } => "Unexpected token '"@
                + token + "', expected '='"@,
            ParseErrorView::MissingValue => "Value must be specified"@,
            ParseErrorView::ExpectedComma => "Expected a comma-separated attribute list"@,
            ParseErrorView::TrailingComma => "Expected an attribute after ','"@,
        }
    }
}

impl ParseError {
    /// The diagnostic shown for this error.
    pub fn message(&self) -> (text: String)
        ensures
            text@ == self@.message(),
    {
        match self {
            ParseError::ExpectedEquals { key, found: None } => {
                let mut text = "Expected '=' after '".to_owned();
                text.append(key.as_str());
                text.append("'");
                text
            },
            ParseError::ExpectedEquals { key: _, found: Some(token) } => {
                let mut text = "Unexpected token '".to_owned();
                text.append(token.as_str());
                text.append("', expected '='");
                text
            },
            ParseError::MissingValue => "Value must be specified".to_owned(),
            ParseError::ExpectedComma => "Expected a comma-separated attribute list".to_owned(),
            ParseError::TrailingComma => "Expected an attribute after ','".to_owned(),
        }
    }
}

/// Why a `key = value` record does not stand for an attribute.
#[derive(Debug, Clone, PartialEq, Eq)]
pub enum DecodeError {
    /// The value is not enclosed in double quotes.
    UnquotedString,
    /// The value names no case style.
    UnknownCaseStyle,
    /// The key is none of `prefix`, `suffix`, `case`, `rename`.
    UnsupportedKey(String),
    /// A rename was asked of a record whose key is not `rename`.
    NotRename,
    /// A case style was asked of a record whose key is not `case`.
    NotCase,
}

/// The mathematical value of a [`DecodeError`].
pub enum DecodeErrorView {
    UnquotedString,
    UnknownCaseStyle,
    UnsupportedKey(Seq<char>),
    NotRename,
    NotCase,
}

impl View for DecodeError {
    type V = DecodeErrorView;

    open spec fn view(&self) -> DecodeErrorView {
        match self {
            DecodeError::UnquotedString => DecodeErrorView::UnquotedString,
            DecodeError::UnknownCaseStyle => DecodeErrorView::UnknownCaseStyle,
            DecodeError::UnsupportedKey(key) => DecodeErrorView::UnsupportedKey(key@),
            DecodeError::NotRename => DecodeErrorView::NotRename,
            DecodeError::NotCase => DecodeErrorView::NotCase,
        }
    }
}

impl DecodeErrorView {
    /// The diagnostic shown for this error.
    pub open spec fn message(self) -> Seq<char> {
        match self {
            DecodeErrorView::UnquotedString => "String must be enclosed in double quotes"@,
            DecodeErrorView::UnknownCaseStyle => "Invalid case"@,
            DecodeErrorView::UnsupportedKey(key) => "Invalid argument: "@ + key,
            DecodeErrorView::NotRename => "Not a rename string"@,
            DecodeErrorView::NotCase => "The first string is not \"case\""@,
        }
    }
}

impl DecodeError {
    /// The diagnostic shown for this error.
    pub fn message(&self) -> (text: String)
        ensures
            text@ == self@.message(),
    {
        match self {
            DecodeError::UnquotedString => "String must be enclosed in double quotes".to_owned(),
            DecodeError::UnknownCaseStyle => "Invalid case".to_owned(),
            DecodeError::UnsupportedKey(key) => {
                let mut text = "Invalid argument: ".to_owned();
                text.append(key.as_str());
                text
            },
            DecodeError::NotRename => "Not a rename string".to_owned(),
            DecodeError::NotCase => "The first string is not \"case\"".to_owned(),
        }
    }
}

/// Why the annotations of a declaration cannot be resolved.
#[derive(Debug, Clone, PartialEq, Eq)]
pub enum Error {
    /// An annotation's tokens are no attribute list.
    Parse(ParseError),
    /// A record of an annotation stands for no attribute.
    Decode(DecodeError),
}

/// The mathematical value of an [`Error`].
pub enum ErrorView {
    Parse(ParseErrorView),
    Decode(DecodeErrorView),
}

impl View for Error {
    type V = ErrorView;

    open spec fn view(&self) -> ErrorView {
        match self {
            Error::Parse(error) => ErrorView::Parse(error@),
            Error::Decode(error) => ErrorView::Decode(error@),
        }
    }
}

impl ErrorView {
    /// The diagnostic shown for this error.
    pub open spec fn message(self) -> Seq<char> {
        match self {
            ErrorView::Parse(error) => error.message(),
            ErrorView::Decode(error) => error.message(),
        }
    }
}

impl Error {
    /// The diagnostic shown for this error.
    pub fn message(&self) -> (text: String)
        ensures
            text@ == self@.message(),
    {
        match self {
            Error::Parse(error) => error.message(),
            Error::Decode(error) => error.message(),
        }
    }
}

} // verus!
