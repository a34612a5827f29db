//! What a command tells the presentation layer, and how a failed command
//! reports itself.

use vstd::prelude::*;
use vstd::string::StringExecFns;

verus! {

/// A one-way event for the presentation layer. A command that changed what
/// the user can see asks for one; delivering it is the caller's part.
#[derive(Clone, Copy, Debug, PartialEq, Eq, Structural)]
pub enum Notice {
    /// The catalog snapshot was replaced.
    CatalogRefreshed,
    /// An entry of the library was created, launched or removed.
    LibraryUpdated,
}

impl Notice {
    /// The name under which the event is sent.
    pub open spec fn topic_text(self) -> Seq<char> {
        match self {
            Notice::CatalogRefreshed => "catalog-refreshed"@,
            Notice::LibraryUpdated => "library-updated"@,
        }
    }

    pub fn topic(&self) -> (name: &'static str)
        ensures
            name@ == self.topic_text(),
    {
        match self {
            Notice::CatalogRefreshed => "catalog-refreshed",
            Notice::LibraryUpdated => "library-updated",
        }
    }
}

/// Why a command failed at its boundary.
#[derive(Debug)]
pub enum CommandError {
    /// The guard of the catalog snapshot could not be acquired.
    CatalogLockUnavailable,
    /// The guard of the library could not be acquired.
    LibraryLockUnavailable,
    /// The guard of the runtime configuration could not be acquired.
    ConfigLockUnavailable,
    /// An event could not be delivered. The change it reports is in effect
    /// all the same.
    NotificationFailure(String),
}

/// What a [`CommandError`] holds, as mathematical values.
pub enum CommandErrorView {
    CatalogLockUnavailable,
    LibraryLockUnavailable,
    ConfigLockUnavailable,
    NotificationFailure(Seq<char>),
}

impl View for CommandError {
    type V = CommandErrorView;

    open spec fn view(&self) -> CommandErrorView {
        match self {
            CommandError::CatalogLockUnavailable => CommandErrorView::CatalogLockUnavailable,
            CommandError::LibraryLockUnavailable => CommandErrorView::LibraryLockUnavailable,
            CommandError::ConfigLockUnavailable => CommandErrorView::ConfigLockUnavailable,
            CommandError::NotificationFailure(cause) => CommandErrorView::NotificationFailure(
                cause@,
            ),
        }
    }
}

impl CommandErrorView {
    /// The text that the caller of a failed command is given.
    pub open spec fn message(self) -> Seq<char> {
        match self {
            CommandErrorView::CatalogLockUnavailable => "store catalog lock poisoned"@,
            CommandErrorView::LibraryLockUnavailable => "library lock poisoned"@,
            CommandErrorView::ConfigLockUnavailable => "runtime config lock poisoned"@,
            CommandErrorView::NotificationFailure(cause) => "event emit failed: "@ + cause,
        }
    }
}

impl CommandError {
    /// The text that the caller of a failed command is given.
    pub fn message(&self) -> (text: String)
        ensures
            text@ == self@.message(),
    {
        match self {
            CommandError::CatalogLockUnavailable => "store catalog lock poisoned".to_string(),
            CommandError::LibraryLockUnavailable => "library lock poisoned".to_string(),
            CommandError::ConfigLockUnavailable => "runtime config lock poisoned".to_string(),
            CommandError::NotificationFailure(cause) => {
                "event emit failed: ".to_string().concat(cause.as_str())
            },
        }
    }
}

} // verus!
