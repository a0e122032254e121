//! The errors that the library reports.
use vstd::prelude::*;

verus! {

/// What went wrong, by the part of the system that reports it.
#[derive(Debug, PartialEq, Eq)]
pub enum Error {
    Config(String),
    Git(String),
    Watcher(String),
    Hook(String),
    Lock(String),
}

/// The part of the system that reports an error.
pub enum ErrorKind {
    Config,
    Git,
    Watcher,
    Hook,
    Lock,
}

/// An error as its kind and the characters of its message.
pub struct ErrorView {
    pub kind: ErrorKind,
    pub message: Seq<char>,
}

impl View for Error {
    type V = ErrorView;

    open spec fn view(&self) -> ErrorView {
        match self {
            Error::Config(text) => ErrorView { kind: ErrorKind::Config, message: text@ },
            Error::Git(text) => ErrorView { kind: ErrorKind::Git, message: text@ },
            Error::Watcher(text) => ErrorView { kind: ErrorKind::Watcher, message: text@ },
            Error::Hook(text) => ErrorView { kind: ErrorKind::Hook, message: text@ },
            Error::Lock(text) => ErrorView { kind: ErrorKind::Lock, message: text@ },
        }
    }
}

/// A git error with this message.
pub open spec fn git_error(message: Seq<char>) -> ErrorView {
    ErrorView { kind: ErrorKind::Git, message }
}

/// A watcher error with this message.
pub open spec fn watcher_error(message: Seq<char>) -> ErrorView {
    ErrorView { kind: ErrorKind::Watcher, message }
}

/// A hook error with this message.
pub open spec fn hook_error(message: Seq<char>) -> ErrorView {
    ErrorView { kind: ErrorKind::Hook, message }
}

/// A configuration error with this message.
pub open spec fn config_error(message: Seq<char>) -> ErrorView {
    ErrorView { kind: ErrorKind::Config, message }
}

/// A lock error with this message.
pub open spec fn lock_error(message: Seq<char>) -> ErrorView {
    ErrorView { kind: ErrorKind::Lock, message }
}

/// The outcome of an operation that hands back nothing.
pub open spec fn unit_view(result: Result<(), Error>) -> Result<(), ErrorView> {
    match result {
        Ok(()) => Ok(()),
        Err(error) => Err(error@),
    }
}

/// The outcome of an operation that hands back a text.
pub open spec fn text_view(result: Result<String, Error>) -> Result<Seq<char>, ErrorView> {
    match result {
        Ok(text) => Ok(text@),
        Err(error) => Err(error@),
    }
}

/// What an error is shown as: its kind, then its message.
pub open spec fn shown(error: ErrorView) -> Seq<char> {
    match error.kind {
        ErrorKind::Config => "config error: "@ + error.message,
        ErrorKind::Git => "git error: "@ + error.message,
        ErrorKind::Watcher => "watcher error: "@ + error.message,
        ErrorKind::Hook => "hook error: "@ + error.message,
        ErrorKind::Lock => "lock error: "@ + error.message,
    }
}

impl Error {
    /// What the error is shown as.
    pub fn to_text(&self) -> (text: String)
        ensures
            text@ == shown(self@),
    {
        match self {
            Error::Config(message) => concat("config error: ", message.as_str()),
            Error::Git(message) => concat("git error: ", message.as_str()),
            Error::Watcher(message) => concat("watcher error: ", message.as_str()),
            Error::Hook(message) => concat("hook error: ", message.as_str()),
            Error::Lock(message) => concat("lock error: ", message.as_str()),
        }
    }
}

impl Clone for Error {
    fn clone(&self) -> (copy: Error)
        ensures
            copy == *self,
    {
        match self {
            Error::Config(message) => Error::Config(message.clone()),
            Error::Git(message) => Error::Git(message.clone()),
            Error::Watcher(message) => Error::Watcher(message.clone()),
            Error::Hook(message) => Error::Hook(message.clone()),
            Error::Lock(message) => Error::Lock(message.clone()),
        }
    }
}

/// One text behind the other.
pub(crate) fn concat(first: &str, second: &str) -> (text: String)
    ensures
        text@ == first@ + second@,
{
    let mut text: String = first.to_owned();
    text.append(second);
    text
}

/// An error is shown as a word for the part that reports it, then its message as it is.
pub proof fn law_shown_error_ends_with_its_message(message: Seq<char>)
    ensures
        shown(git_error(message)) == "git error: "@ + message,
        shown(watcher_error(message)) == "watcher error: "@ + message,
        shown(hook_error(message)) == "hook error: "@ + message,
        shown(config_error(message)) == "config error: "@ + message,
        shown(lock_error(message)) == "lock error: "@ + message,
        git_error(message).kind == ErrorKind::Git && git_error(message).message == message,
        watcher_error(message).kind == ErrorKind::Watcher && watcher_error(message).message
            == message,
        hook_error(message).kind == ErrorKind::Hook && hook_error(message).message == message,
        config_error(message).kind == ErrorKind::Config && config_error(message).message == message,
        lock_error(message).kind == ErrorKind::Lock && lock_error(message).message == message,
{
}

} // verus!
