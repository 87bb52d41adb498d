//! The ways in which loading or querying a configuration fails.

use crate::source::{ConfigSource, FilePath, SourceView};
use vstd::prelude::*;
use vstd::string::*;

verus! {

/// Why an operation on a configuration failed.
#[derive(Debug, Clone, PartialEq, Eq)]
pub enum ConfigError {
    /// The source is of a kind that cannot be read yet.
    FeatureNotSupported(ConfigSource),
    /// A build was asked for with no source declared.
    EmptySources,
    /// The file could not be read, or its type is not supported.
    FileReadError(FilePath, String),
    /// Contents or a value could not be decoded into the shape asked for.
    ParseError(String),
    /// A value is present but not acceptable.
    ValidationError(String),
    /// No profile of that name.
    ProfileNotFoundError(String),
    /// No value at the key.
    NullValue(String),
    /// No value at the key where a structure was asked for.
    KeyNotFoundError(String),
    /// The file watch could not be registered or failed to deliver.
    FileWatchError(String),
}

/// What a `ConfigError` is, with every text as its characters.
pub enum ErrorView {
    FeatureNotSupported(SourceView),
    EmptySources,
    FileReadError(Seq<char>, Seq<char>),
    ParseError(Seq<char>),
    ValidationError(Seq<char>),
    ProfileNotFoundError(Seq<char>),
    NullValue(Seq<char>),
    KeyNotFoundError(Seq<char>),
    FileWatchError(Seq<char>),
}

impl View for ConfigError {
    type V = ErrorView;

    open spec fn view(&self) -> ErrorView {
        match *self {
            ConfigError::FeatureNotSupported(s) => ErrorView::FeatureNotSupported(s@),
            ConfigError::EmptySources => ErrorView::EmptySources,
            ConfigError::FileReadError(p, d) => ErrorView::FileReadError(p@, d@),
            ConfigError::ParseError(d) => ErrorView::ParseError(d@),
            ConfigError::ValidationError(d) => ErrorView::ValidationError(d@),
            ConfigError::ProfileNotFoundError(n) => ErrorView::ProfileNotFoundError(n@),
            ConfigError::NullValue(k) => ErrorView::NullValue(k@),
            ConfigError::KeyNotFoundError(k) => ErrorView::KeyNotFoundError(k@),
            ConfigError::FileWatchError(d) => ErrorView::FileWatchError(d@),
        }
    }
}

/// The text that describes an error to a reader.
pub open spec fn message_of(e: ErrorView) -> Seq<char> {
    match e {
        ErrorView::FeatureNotSupported(_) => "Feature not passed 0"@,
        ErrorView::EmptySources => "Must pass sources to read from"@,
        ErrorView::FileReadError(path, detail) => "Failed to read configuration file: "@ + detail
            + " ["@ + path + "]"@,
        ErrorView::ParseError(detail) => "Error parsing configuration: "@ + detail,
        ErrorView::ValidationError(detail) => "Validation error: "@ + detail,
        ErrorView::ProfileNotFoundError(name) => "Configuration profile not found: "@ + name,
        ErrorView::NullValue(key) => "Value: "@ + key + " not found in configs map"@,
        ErrorView::KeyNotFoundError(key) => "The key "@ + key + " not found on configurations"@,
        ErrorView::FileWatchError(detail) => "Failed to watch configuration file: "@ + detail,
    }
}

impl ConfigError {
    /// The error as a line of text.
    pub fn message(&self) -> (r: String)
        ensures
            r@ == message_of(self@),
    {
        match self {
            ConfigError::FeatureNotSupported(_) => String::from_str("Feature not passed 0"),
            ConfigError::EmptySources => String::from_str("Must pass sources to read from"),
            ConfigError::FileReadError(path, detail) => String::from_str(
                "Failed to read configuration file: ",
            ).concat(detail.as_str()).concat(" [").concat(path.as_str()).concat("]"),
            ConfigError::ParseError(detail) => String::from_str(
                "Error parsing configuration: ",
            ).concat(detail.as_str()),
            ConfigError::ValidationError(detail) => String::from_str("Validation error: ").concat(
                detail.as_str(),
            ),
            ConfigError::ProfileNotFoundError(name) => String::from_str(
                "Configuration profile not found: ",
            ).concat(name.as_str()),
            ConfigError::NullValue(key) => String::from_str("Value: ").concat(key.as_str()).concat(
                " not found in configs map",
            ),
            ConfigError::KeyNotFoundError(key) => String::from_str("The key ").concat(
                key.as_str(),
            ).concat(" not found on configurations"),
            ConfigError::FileWatchError(detail) => String::from_str(
                "Failed to watch configuration file: ",
            ).concat(detail.as_str()),
        }
    }
}

} // verus!
