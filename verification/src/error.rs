//! The failures that the program store reports.

use vstd::prelude::*;
use vstd::string::StringExecFns;

verus! {

/// The kinds of failure of the program store.
#[derive(Clone, Copy, Debug, PartialEq, Eq, Structural)]
pub enum ErrorKind {
    /// The backend holds no program by the requested name.
    NotFound,
    /// The backend failed to carry out an operation.
    Backend,
    /// A stored value is not an entry that this store can read.
    Decode,
}

/// A failure of the program store.
#[derive(Debug)]
pub struct StoreError {
    /// What went wrong.
    pub kind: ErrorKind,
    /// A description for people to read.
    pub message: String,
}

/// The description of a failed operation on the backend entry called
/// `subject`: the `action` that failed, the subject, a colon and the
/// `diagnostic` that came with the failure.
pub open spec fn failure_text(action: Seq<char>, subject: Seq<char>, diagnostic: Seq<char>) -> Seq<
    char,
> {
    action + subject + ": "@ + diagnostic
}

/// What is said of a failed attempt to read a backend entry.
pub open spec fn get_failed() -> Seq<char> {
    "Failed to get local storage entry with key "@
}

/// What is said of a failed attempt to write a backend entry.
pub open spec fn put_failed() -> Seq<char> {
    "Failed to put local storage entry with key "@
}

/// What is said of a failed attempt to remove a backend entry.
pub open spec fn remove_failed() -> Seq<char> {
    "Failed to put remove storage entry with key "@
}

/// What is said of a backend entry that cannot be read as a program.
pub open spec fn parse_failed() -> Seq<char> {
    "Failed to parse local storage entry with key "@
}

impl StoreError {
    /// Whether this failure is described as the failure of `action` on the
    /// backend entry called `subject`, with some diagnostic after it.
    pub open spec fn reports(&self, action: Seq<char>, subject: Seq<char>) -> bool {
        exists|diagnostic: Seq<char>|
            self.message@ == #[trigger] failure_text(action, subject, diagnostic)
    }

    /// The failure to find a program.
    pub fn not_found() -> (e: StoreError)
        ensures
            e.kind == ErrorKind::NotFound,
            e.message@ == "File not found"@,
    {
        StoreError { kind: ErrorKind::NotFound, message: String::from_str("File not found") }
    }

    /// A failure of the given `kind` described by `message`.
    pub fn new(kind: ErrorKind, message: &str) -> (e: StoreError)
        ensures
            e.kind == kind,
            e.message@ == message@,
    {
        StoreError { kind, message: String::from_str(message) }
    }

    /// A failure of the given `kind` of the `action` on the backend entry
    /// called `subject`, which came with `diagnostic`.
    pub fn describe(kind: ErrorKind, action: &str, subject: &str, diagnostic: &str) -> (e:
        StoreError)
        ensures
            e.kind == kind,
            e.message@ == failure_text(action@, subject@, diagnostic@),
    {
        let mut message = String::from_str(action);
        message.append(subject);
        message.append(": ");
        message.append(diagnostic);
        StoreError { kind, message }
    }

    /// Returns the description of this failure.
    pub fn message(&self) -> (r: &str)
        ensures
            r@ == self.message@,
    {
        self.message.as_str()
    }
}

} // verus!
