//! The error kinds that the store reports.
use vstd::prelude::*;
use vstd::string::StringExecFns;

verus! {

/// An error of the store.
#[derive(Debug)]
pub enum StoreError {
    /// IO error communicating with underlying storage, likely retryable
    IOError(String),
    /// Underlying data has an issue, likely not retryable
    BadData(String),
    /// Bad configuration
    BadConfiguration(String),
    /// Invalid continuation token
    InvalidContinuation(String),
    /// Keyspace already existed
    KeyspaceAlreadyExists,
    /// Keyspace not found
    KeyspaceNotFound,
}

/// An owned copy of a message.
pub fn message(s: &str) -> (r: String)
    ensures
        r@ == s@,
{
    String::from_str(s)
}

/// `name(detail)`.
fn wrapped(name: &str, detail: &String) -> (r: String)
    ensures
        r@ == name@ + seq!['('] + detail@ + seq![')'],
{
    let mut out = String::from_str(name);
    out.append("(");
    out.append(detail.as_str());
    out.append(")");
    proof {
        reveal_strlit("(");
        reveal_strlit(")");
    }
    out
}

impl StoreError {
    /// The text of the error: its kind, and the detail in parentheses where it has one.
    pub fn to_string(&self) -> (r: String)
        ensures
            self matches StoreError::IOError(s) ==> r@ == "IOError"@ + seq!['('] + s@ + seq![')'],
            self matches StoreError::BadData(s) ==> r@ == "BadData"@ + seq!['('] + s@ + seq![')'],
            self matches StoreError::BadConfiguration(s) ==> r@ == "BadConfiguration"@ + seq!['('] + s@ + seq![')'],
            self matches StoreError::InvalidContinuation(s) ==> r@ == "InvalidContinuation"@ + seq!['('] + s@ + seq![')'],
            self is KeyspaceAlreadyExists ==> r@ == "KeyspaceAlreadyExists"@,
            self is KeyspaceNotFound ==> r@ == "KeyspaceNotFound"@,
    {
        match self {
            StoreError::IOError(s) => wrapped("IOError", s),
            StoreError::BadData(s) => wrapped("BadData", s),
            StoreError::BadConfiguration(s) => wrapped("BadConfiguration", s),
            StoreError::InvalidContinuation(s) => wrapped("InvalidContinuation", s),
            StoreError::KeyspaceAlreadyExists => message("KeyspaceAlreadyExists"),
            StoreError::KeyspaceNotFound => message("KeyspaceNotFound"),
        }
    }
}

} // verus!
