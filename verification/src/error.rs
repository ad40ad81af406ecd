use vstd::prelude::*;
use vstd::string::*;

verus! {

/// Errors returned by the domain rules of the library.
#[derive(Debug, Clone, PartialEq, Eq)]
pub enum Error {
    /// The caller supplied input that the rules reject.
    Invalid(String),
    /// Stored or computed state broke an internal invariant.
    Invariant(String),
    /// The request conflicts with the current state (versions, reuse of keys).
    Conflict(String),
    /// A referenced entity does not exist.
    NotFound { entity: String, id: String },
    /// An AI operation has used up its allowance of attempts for the period.
    AiDailyLimitExceeded { operation: String, limit: u32 },
}

/// The kinds of failure, as contracts name them.
#[derive(Debug, Clone, Copy, PartialEq, Eq, Structural)]
pub enum ErrorKind {
    Invalid,
    Invariant,
    Conflict,
    NotFound,
    AiDailyLimitExceeded,
}

impl Error {
    /// The kind of the failure.
    pub open spec fn kind(self) -> ErrorKind {
        match self {
            Error::Invalid(_) => ErrorKind::Invalid,
            Error::Invariant(_) => ErrorKind::Invariant,
            Error::Conflict(_) => ErrorKind::Conflict,
            Error::NotFound { .. } => ErrorKind::NotFound,
            Error::AiDailyLimitExceeded { .. } => ErrorKind::AiDailyLimitExceeded,
        }
    }
}

/// A result with its error reduced to the kind of failure.
pub open spec fn outcome<T>(r: Result<T, Error>) -> Result<T, ErrorKind> {
    match r {
        Ok(v) => Ok(v),
        Err(e) => Err(e.kind()),
    }
}

/// Builds an `Invalid` error from a message.
pub fn invalid(message: &str) -> (e: Error)
    ensures
        e == Error::Invalid(e->Invalid_0) && e->Invalid_0@ == message@,
{
    Error::Invalid(message.to_owned())
}

/// Builds an `Invariant` error from a message.
pub fn broken(message: &str) -> (e: Error)
    ensures
        e is Invariant && e->Invariant_0@ == message@,
{
    Error::Invariant(message.to_owned())
}

/// Builds an `Invariant` error whose message ends with the offending stored value.
pub fn broken_value(message: &str, value: &str) -> (e: Error)
    ensures
        e is Invariant && e->Invariant_0@ == message@ + value@,
{
    Error::Invariant(message.to_owned().concat(value))
}

/// Builds a `Conflict` error from a message.
pub fn conflict(message: &str) -> (e: Error)
    ensures
        e is Conflict && e->Conflict_0@ == message@,
{
    Error::Conflict(message.to_owned())
}


/// Builds an `Invalid` error that names the offending field.
pub fn invalid_field(field: &str, detail: &str) -> (e: Error)
    ensures
        e is Invalid && e->Invalid_0@ == field@ + detail@,
{
    Error::Invalid(field.to_owned().concat(detail))
}

/// Builds the `Conflict` error of a stale write: the record moved on from the version
/// the caller read.
pub fn version_conflict(resource: &str, id: &str, expected: u64, found: u64) -> (e: Error)
    ensures
        e is Conflict && e->Conflict_0@ == resource@ + " "@ + id@ + " changed from version "@ + crate::text::decimal(
            expected as nat,
        ) + " to "@ + crate::text::decimal(found as nat),
{
    Error::Conflict(
        resource.to_owned().concat(" ").concat(id).concat(" changed from version ").concat(
            crate::text::u64_to_decimal(expected).as_str(),
        ).concat(" to ").concat(crate::text::u64_to_decimal(found).as_str()),
    )
}

/// Builds a `Conflict` error that names the offending resource.
pub fn conflict_on(resource: &str, detail: &str) -> (e: Error)
    ensures
        e is Conflict && e->Conflict_0@ == resource@ + detail@,
{
    Error::Conflict(resource.to_owned().concat(detail))
}

/// Builds a `NotFound` error for an entity and identifier.
pub fn not_found(entity: &str, id: &str) -> (e: Error)
    ensures
        e is NotFound && e->entity@ == entity@ && e->id@ == id@,
{
    Error::NotFound { entity: entity.to_owned(), id: id.to_owned() }
}

/// Refuses an AI operation whose attempts in the period have reached the limit.
pub fn check_attempt_allowance(operation: &str, attempts: u64, limit: u32) -> (r: Result<(), Error>)
    ensures
        r is Ok <==> attempts < limit,
        r matches Err(e) ==> e is AiDailyLimitExceeded && e->operation@ == operation@
            && e->limit == limit,
{
    if attempts >= limit as u64 {
        return Err(Error::AiDailyLimitExceeded { operation: operation.to_owned(), limit });
    }
    Ok(())
}

} // verus!
