//! What can go wrong while a trace is read, and what cannot while a tree is
//! written out.

use vstd::prelude::*;

verus! {

/// The step of handling one line that failed.
#[derive(Debug, Clone, Copy, PartialEq, Eq)]
pub enum ParseError {
    /// The line has no `<subject>.<name>(` to take a property's name from.
    PropertyName,
    /// The last group in parentheses does not give block, time, sender and
    /// value, each readable.
    CallContext,
    /// The property that a call line calls cannot be told.
    PropertyCall,
    /// The line of a call has no `<subject>.<name>(` to take the name of the
    /// called property from.
    CalledName,
    /// A call was to be added while no function declaration is pending.
    WrongParent,
}

/// A recognised line that could not be handled, with the step that failed.
#[derive(Debug, Clone, Copy, PartialEq, Eq)]
pub enum LineError {
    /// A failure line from which no reproducer could be started.
    NewFailure(ParseError),
    /// A call line that could not be added to the pending reproducer.
    NewCall(ParseError),
}

/// A trace that was not read to its end, with the error of the line at
/// which reading stopped.
#[derive(Debug, Clone, Copy, PartialEq, Eq)]
pub struct ReadError {
    pub cause: LineError,
}

/// A run that gave no text, with the error of reading the trace.
#[derive(Debug, Clone, Copy, PartialEq, Eq)]
pub struct InputError {
    pub cause: ReadError,
}

impl ReadError {
    /// The message of every such error.
    pub open spec fn message(self) -> Seq<char> {
        "Error: Failed to process line"@
    }

    /// The message as a string.
    pub fn to_string(&self) -> (r: String)
        ensures
            r@ == self.message(),
    {
        "Error: Failed to process line".to_string()
    }

    /// The error of the line.
    pub fn cause(&self) -> (r: LineError)
        ensures
            r == self.cause,
    {
        self.cause
    }
}

impl InputError {
    /// The message of every such error.
    pub open spec fn message(self) -> Seq<char> {
        "Error: Failed to parse"@
    }

    /// The message as a string.
    pub fn to_string(&self) -> (r: String)
        ensures
            r@ == self.message(),
    {
        "Error: Failed to parse".to_string()
    }

    /// The error of reading the trace.
    pub fn cause(&self) -> (r: ReadError)
        ensures
            r == self.cause,
    {
        self.cause
    }
}

/// The error of emitting a tree. Emission never fails, so none is ever made.
#[derive(Debug, Clone, Copy, PartialEq, Eq)]
pub struct EmitError {}

/// What can keep a reproducer contract from being set up.
#[derive(Debug, Clone, Copy, PartialEq, Eq)]
pub enum ContractError {
    /// The configuration is no JSON document.
    ParseConfig,
    /// No file name is free. Among the names that are tried one always is,
    /// so this is never returned.
    NoFilename,
}

impl ContractError {
    /// The message that says what went wrong.
    pub open spec fn message(self) -> Seq<char> {
        match self {
            ContractError::ParseConfig => "Failed to parse medusa.json"@,
            ContractError::NoFilename => "No available filename found"@,
        }
    }

    /// The message as a string.
    pub fn to_string(&self) -> (r: String)
        ensures
            r@ == self.message(),
    {
        match self {
            ContractError::ParseConfig => "Failed to parse medusa.json".to_string(),
            ContractError::NoFilename => "No available filename found".to_string(),
        }
    }
}

impl ParseError {
    /// The message that says which step failed.
    pub open spec fn message(self) -> Seq<char> {
        match self {
            ParseError::PropertyName => "Couldn't parse property name"@,
            ParseError::CallContext => "failed to parse call context"@,
            ParseError::PropertyCall => "failed to extract property to call"@,
            ParseError::CalledName => "Failed to extract property name"@,
            ParseError::WrongParent => "wrong parent"@,
        }
    }

    /// The message as a string.
    pub fn to_string(&self) -> (r: String)
        ensures
            r@ == self.message(),
    {
        match self {
            ParseError::PropertyName => "Couldn't parse property name".to_string(),
            ParseError::CallContext => "failed to parse call context".to_string(),
            ParseError::PropertyCall => "failed to extract property to call".to_string(),
            ParseError::CalledName => "Failed to extract property name".to_string(),
            ParseError::WrongParent => "wrong parent".to_string(),
        }
    }
}

impl LineError {
    /// The message that says which kind of line failed.
    pub open spec fn message(self) -> Seq<char> {
        match self {
            LineError::NewFailure(_) => "failed to parse new broken property"@,
            LineError::NewCall(_) => "failed to add new call to ast"@,
        }
    }

    /// The step that failed.
    pub open spec fn spec_cause(&self) -> ParseError {
        match self {
            LineError::NewFailure(cause) => *cause,
            LineError::NewCall(cause) => *cause,
        }
    }

    /// The message as a string.
    pub fn to_string(&self) -> (r: String)
        ensures
            r@ == self.message(),
    {
        match self {
            LineError::NewFailure(_) => "failed to parse new broken property".to_string(),
            LineError::NewCall(_) => "failed to add new call to ast".to_string(),
        }
    }

    /// The step that failed.
    #[verifier::when_used_as_spec(spec_cause)]
    pub fn cause(&self) -> (r: ParseError)
        ensures
            r == self.spec_cause(),
    {
        match self {
            LineError::NewFailure(cause) => *cause,
            LineError::NewCall(cause) => *cause,
        }
    }
}

} // verus!
