//! The error taxonomy shared by every connection provider.

use vstd::prelude::*;

verus! {

/// The stage of a cache operation at which a failure arose.
#[derive(Clone, Copy, Debug, PartialEq, Eq, Structural)]
pub enum ErrorKind {
    /// The connection target could not be parsed, or no handle could be built.
    ClientConstruction,
    /// No connection became available in time, or opening a fresh one failed.
    Acquisition,
    /// The store rejected a command, or failed to execute it.
    CommandExecution,
    /// The store's reply could not be read as the expected type.
    TypeDecoding,
}

/// A failure, tagged by its stage and carrying the underlying error's text.
#[derive(Clone, Debug, PartialEq, Eq)]
pub struct Error {
    kind: ErrorKind,
    context: String,
}

impl View for Error {
    type V = (ErrorKind, Seq<char>);

    closed spec fn view(&self) -> (ErrorKind, Seq<char>) {
        (self.kind, self.context@)
    }
}

impl Error {
    /// Builds the failure of stage `kind` with the text `context`.
    pub fn new(kind: ErrorKind, context: String) -> (e: Error)
        ensures
            e@ == (kind, context@),
    {
        Error { kind, context }
    }

    /// The stage at which the failure arose.
    pub fn kind(&self) -> (k: ErrorKind)
        ensures
            k == self@.0,
    {
        self.kind
    }

    /// The underlying error's text.
    pub fn context(&self) -> (c: &str)
        ensures
            c@ == self@.1,
    {
        self.context.as_str()
    }

    /// The sentence that introduces a failure of stage `kind`.
    pub fn headline(kind: ErrorKind) -> (s: &'static str)
        ensures
            s@ == Self::headline_of(kind),
    {
        match kind {
            ErrorKind::ClientConstruction => "error creating Redis client",
            ErrorKind::Acquisition => "could not get redis connection from pool",
            ErrorKind::CommandExecution => "error executing redis command",
            ErrorKind::TypeDecoding => "error parsing string from redis result",
        }
    }

    /// The text of [`Error::headline`].
    pub open spec fn headline_of(kind: ErrorKind) -> Seq<char> {
        match kind {
            ErrorKind::ClientConstruction => "error creating Redis client"@,
            ErrorKind::Acquisition => "could not get redis connection from pool"@,
            ErrorKind::CommandExecution => "error executing redis command"@,
            ErrorKind::TypeDecoding => "error parsing string from redis result"@,
        }
    }

    /// The text of [`Error::message`]: headline, a colon between spaces as
    /// the pool's messages have it, and the context.
    pub open spec fn message_of(kind: ErrorKind, context: Seq<char>) -> Seq<char> {
        Self::headline_of(kind) + Self::separator_of(kind) + context
    }

    /// What stands between headline and context.
    pub open spec fn separator_of(kind: ErrorKind) -> Seq<char> {
        match kind {
            ErrorKind::Acquisition => " : "@,
            _ => ": "@,
        }
    }

    /// The failure as one line of text.
    pub fn message(&self) -> (s: String)
        ensures
            s@ == Self::message_of(self@.0, self@.1),
    {
        let mut s = String::from_str(Self::headline(self.kind));
        match self.kind {
            ErrorKind::Acquisition => s.append(" : "),
            _ => s.append(": "),
        }
        s.append(self.context.as_str());
        s
    }
}

} // verus!
