//! The closed taxonomy of failures, and how each is shown to a caller.

use core::num::TryFromIntError;
use vstd::prelude::*;
use vstd::string::StringExecFns;
use vstd::std_specs::convert::FromSpecImpl;

verus! {

/// Every way an operation of this crate can fail.
///
/// A variant that stands for a fault of an underlying engine carries the
/// engine's own description of the fault as text, never the engine's error
/// value.
#[derive(Debug, PartialEq, Eq)]
pub enum Error {
    /// The HTTP layer could not build a response.
    Axum(String),
    /// The presented deletion token is not the one recorded for the entry.
    Delete,
    /// The codec could not process a payload.
    Compression(String),
    /// No entry has the requested identifier.
    NotFound,
    /// Any other fault of the storage engine.
    Sqlite(String),
    /// A schema migration could not be applied.
    Migration(String),
    /// A content or identifier length is not acceptable.
    WrongSize,
    /// An identifier holds a character outside the allowed set.
    IllegalCharacters,
    /// A length does not fit the integer type it has to be stored in.
    IntConversion(String),
    /// A background task was cancelled or panicked.
    Join(String),
    /// The highlighter could not apply a theme or produce its output.
    SyntaxHighlighting(String),
    /// The highlighter could not tokenize the content.
    SyntaxParsing(String),
    /// The presented deletion token is missing or malformed.
    CookieParsing(String),
}

/// The class of outcome under which a failure is reported to a caller.
#[derive(Debug, Clone, Copy, PartialEq, Eq, Structural)]
pub enum StatusClass {
    /// What was asked for is not there.
    NotFound,
    /// The request is malformed: the fault is the caller's.
    BadRequest,
    /// The request is well-formed and the caller may not do this.
    Forbidden,
    /// Something failed on this side.
    InternalError,
}

/// The body of an error response: one message and nothing else.
#[derive(Debug, PartialEq, Eq)]
pub struct JsonError {
    pub message: String,
}

/// What a caller receives for a failure: the status class and the body.
#[derive(Debug, PartialEq, Eq)]
pub struct JsonErrorResponse {
    pub status: StatusClass,
    pub body: JsonError,
}

/// A failure of the storage engine in the form the engine reports it,
/// before it is placed in the taxonomy.
#[derive(Debug, PartialEq, Eq)]
pub enum StorageFault {
    /// A query that had to yield a row yielded none.
    NoRows,
    /// Anything else, with the engine's description.
    Other(String),
}

impl Clone for Error {
    fn clone(&self) -> (copy: Error)
        ensures
            copy == *self,
    {
        match self {
            Error::Axum(detail) => Error::Axum(detail.clone()),
            Error::Delete => Error::Delete,
            Error::Compression(detail) => Error::Compression(detail.clone()),
            Error::NotFound => Error::NotFound,
            Error::Sqlite(detail) => Error::Sqlite(detail.clone()),
            Error::Migration(detail) => Error::Migration(detail.clone()),
            Error::WrongSize => Error::WrongSize,
            Error::IllegalCharacters => Error::IllegalCharacters,
            Error::IntConversion(detail) => Error::IntConversion(detail.clone()),
            Error::Join(detail) => Error::Join(detail.clone()),
            Error::SyntaxHighlighting(detail) => Error::SyntaxHighlighting(detail.clone()),
            Error::SyntaxParsing(detail) => Error::SyntaxParsing(detail.clone()),
            Error::CookieParsing(detail) => Error::CookieParsing(detail.clone()),
        }
    }
}

impl Clone for JsonError {
    fn clone(&self) -> (copy: JsonError)
        ensures
            copy == *self,
    {
        JsonError { message: self.message.clone() }
    }
}

impl Clone for JsonErrorResponse {
    fn clone(&self) -> (copy: JsonErrorResponse)
        ensures
            copy == *self,
    {
        JsonErrorResponse { status: self.status, body: self.body.clone() }
    }
}

impl Clone for StorageFault {
    fn clone(&self) -> (copy: StorageFault)
        ensures
            copy == *self,
    {
        match self {
            StorageFault::NoRows => StorageFault::NoRows,
            StorageFault::Other(text) => StorageFault::Other(text.clone()),
        }
    }
}

impl StatusClass {
    /// The HTTP status number of the class.
    pub open spec fn spec_code(self) -> u16 {
        match self {
            StatusClass::NotFound => 404,
            StatusClass::BadRequest => 400,
            StatusClass::Forbidden => 403,
            StatusClass::InternalError => 500,
        }
    }

    /// The HTTP status number of the class.
    pub fn code(self) -> (code: u16)
        ensures
            code == self.spec_code(),
    {
        match self {
            StatusClass::NotFound => 404,
            StatusClass::BadRequest => 400,
            StatusClass::Forbidden => 403,
            StatusClass::InternalError => 500,
        }
    }
}

impl Error {
    /// The status class of each kind of failure: a missing entry is
    /// "not found", malformed input is a "bad request", a refused deletion
    /// is "forbidden", and everything else is an "internal error".
    pub open spec fn status_class(self) -> StatusClass {
        match self {
            Error::NotFound => StatusClass::NotFound,
            Error::IllegalCharacters | Error::WrongSize | Error::CookieParsing(_) => {
                StatusClass::BadRequest
            },
            Error::Delete => StatusClass::Forbidden,
            Error::Join(_)
            | Error::Compression(_)
            | Error::IntConversion(_)
            | Error::Migration(_)
            | Error::Sqlite(_)
            | Error::SyntaxHighlighting(_)
            | Error::SyntaxParsing(_)
            | Error::Axum(_) => StatusClass::InternalError,
        }
    }

    /// The text that goes before the detail of a failure, or the whole
    /// message where the kind carries no detail.
    pub open spec fn headline(self) -> Seq<char> {
        match self {
            Error::Axum(_) => "axum http error: "@,
            Error::Delete => "not allowed to delete"@,
            Error::Compression(_) => "compression error: "@,
            Error::NotFound => "entry not found"@,
            Error::Sqlite(_) => "sqlite error: "@,
            Error::Migration(_) => "migrations error: "@,
            Error::WrongSize => "wrong size"@,
            Error::IllegalCharacters => "illegal characters"@,
            Error::IntConversion(_) => "integer conversion error: "@,
            Error::Join(_) => "join error: "@,
            Error::SyntaxHighlighting(_) => "syntax highlighting error: "@,
            Error::SyntaxParsing(_) => "syntax parsing error: "@,
            Error::CookieParsing(_) => "could not parse cookie: "@,
        }
    }

    /// The detail that a failure carries; empty where the kind carries none.
    pub open spec fn detail(self) -> Seq<char> {
        match self {
            Error::Axum(d)
            | Error::Compression(d)
            | Error::Sqlite(d)
            | Error::Migration(d)
            | Error::IntConversion(d)
            | Error::Join(d)
            | Error::SyntaxHighlighting(d)
            | Error::SyntaxParsing(d)
            | Error::CookieParsing(d) => d@,
            Error::Delete | Error::NotFound | Error::WrongSize | Error::IllegalCharacters => Seq::empty(),
        }
    }

    /// The message shown for a failure: the headline of its kind followed
    /// by its detail.
    pub open spec fn spec_message(self) -> Seq<char> {
        self.headline() + self.detail()
    }

    /// The status class under which this failure is reported.
    pub fn status(&self) -> (class: StatusClass)
        ensures
            class == self.status_class(),
    {
        match self {
            Error::NotFound => StatusClass::NotFound,
            Error::IllegalCharacters | Error::WrongSize | Error::CookieParsing(_) => {
                StatusClass::BadRequest
            },
            Error::Delete => StatusClass::Forbidden,
            Error::Join(_)
            | Error::Compression(_)
            | Error::IntConversion(_)
            | Error::Migration(_)
            | Error::Sqlite(_)
            | Error::SyntaxHighlighting(_)
            | Error::SyntaxParsing(_)
            | Error::Axum(_) => StatusClass::InternalError,
        }
    }

    /// The message shown for this failure.
    pub fn message(&self) -> (text: String)
        ensures
            text@ == self.spec_message(),
    {
        match self {
            Error::Axum(d) => prefixed("axum http error: ", d),
            Error::Delete => String::from_str("not allowed to delete"),
            Error::Compression(d) => prefixed("compression error: ", d),
            Error::NotFound => String::from_str("entry not found"),
            Error::Sqlite(d) => prefixed("sqlite error: ", d),
            Error::Migration(d) => prefixed("migrations error: ", d),
            Error::WrongSize => String::from_str("wrong size"),
            Error::IllegalCharacters => String::from_str("illegal characters"),
            Error::IntConversion(d) => prefixed("integer conversion error: ", d),
            Error::Join(d) => prefixed("join error: ", d),
            Error::SyntaxHighlighting(d) => prefixed("syntax highlighting error: ", d),
            Error::SyntaxParsing(d) => prefixed("syntax parsing error: ", d),
            Error::CookieParsing(d) => prefixed("could not parse cookie: ", d),
        }
    }
}

/// `headline` followed by `detail`, as a new string.
fn prefixed(headline: &str, detail: &String) -> (text: String)
    ensures
        text@ == headline@ + detail@,
{
    let mut text = String::from_str(headline);
    text.append(detail.as_str());
    text
}

impl From<Error> for StatusClass {
    fn from(err: Error) -> (class: StatusClass) {
        err.status()
    }
}

impl FromSpecImpl<Error> for StatusClass {
    open spec fn obeys_from_spec() -> bool {
        true
    }

    open spec fn from_spec(err: Error) -> StatusClass {
        err.status_class()
    }
}

impl From<Error> for JsonErrorResponse {
    /// The response for a failure: its status class, and its message as
    /// the body.
    fn from(err: Error) -> (response: JsonErrorResponse)
        ensures
            response.status == err.status_class(),
            response.body.message@ == err.spec_message(),
    {
        let body = JsonError { message: err.message() };
        JsonErrorResponse { status: err.status(), body }
    }
}

impl FromSpecImpl<Error> for JsonErrorResponse {
    /// The body is a string, which a specification can only describe by
    /// its view: the contract of `from` says what the response holds.
    open spec fn obeys_from_spec() -> bool {
        false
    }

    open spec fn from_spec(err: Error) -> JsonErrorResponse {
        arbitrary()
    }
}

/// The description that an `IntConversion` failure carries: the words of
/// the standard library for a conversion out of range.
pub open spec fn out_of_range_text() -> Seq<char> {
    "out of range integral type conversion attempted"@
}

impl From<TryFromIntError> for Error {
    /// The failure for an integer that does not fit the type it was to be
    /// converted to.
    fn from(_err: TryFromIntError) -> (failure: Error)
        ensures
            failure matches Error::IntConversion(detail) && detail@ == out_of_range_text(),
    {
        Error::IntConversion(String::from_str("out of range integral type conversion attempted"))
    }
}

impl FromSpecImpl<TryFromIntError> for Error {
    /// The detail is a string, which a specification can only describe by
    /// its view: the contract of `from` says what the failure holds.
    open spec fn obeys_from_spec() -> bool {
        false
    }

    open spec fn from_spec(err: TryFromIntError) -> Error {
        arbitrary()
    }
}

impl StorageFault {
    /// Where a fault of the storage engine belongs in the taxonomy: a query
    /// without rows means that the entry is not there; anything else is a
    /// storage failure with the engine's description.
    pub open spec fn normalized(self, err: Error) -> bool {
        match self {
            StorageFault::NoRows => err == Error::NotFound,
            StorageFault::Other(text) => err matches Error::Sqlite(detail) && detail@ == text@,
        }
    }
}

impl From<StorageFault> for Error {
    fn from(fault: StorageFault) -> (err: Error)
        ensures
            fault.normalized(err),
    {
        match fault {
            StorageFault::NoRows => Error::NotFound,
            StorageFault::Other(text) => Error::Sqlite(text),
        }
    }
}

impl FromSpecImpl<StorageFault> for Error {
    open spec fn obeys_from_spec() -> bool {
        true
    }

    open spec fn from_spec(fault: StorageFault) -> Error {
        match fault {
            StorageFault::NoRows => Error::NotFound,
            StorageFault::Other(text) => Error::Sqlite(text),
        }
    }
}

} // verus!
