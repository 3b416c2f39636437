use vstd::prelude::*;
use vstd::string::StringExecFns;

verus! {

/// What a read of the cache can fail with.
#[derive(Debug, PartialEq)]
pub enum Error {
    /// The entry was present but its deadline had passed; it has been evicted.
    Expired,
    /// The entry is live, but holds a value of another type than the one asked for.
    InvalidCast,
    /// No entry is stored under the key.
    NoValue,
    /// The command could not be handed to the engine.
    ThreadErr(String),
    /// The engine went away before it replied.
    ThreadDisconnected,
}

impl Error {
    /// A human-readable description of the error.
    pub fn message(&self) -> (r: String)
        ensures
            r@ == match self {
                Error::Expired => "Value expired"@,
                Error::InvalidCast => "Invalid cast"@,
                Error::NoValue => "No value"@,
                Error::ThreadDisconnected => "Thread disconnected"@,
                Error::ThreadErr(e) => "Thread disconnected: "@ + e@,
            },
    {
        match self {
            Error::Expired => String::from_str("Value expired"),
            Error::InvalidCast => String::from_str("Invalid cast"),
            Error::NoValue => String::from_str("No value"),
            Error::ThreadDisconnected => String::from_str("Thread disconnected"),
            Error::ThreadErr(e) => String::from_str("Thread disconnected: ").concat(e.as_str()),
        }
    }
}

/// The typed result of a read, from what came back over the reply channel.
///
/// `None` is a reply that never arrived; `Some(Ok(None))` a live value whose
/// type did not match the one the caller asked for.
pub open spec fn settled<T>(reply: Option<Result<Option<T>, Error>>) -> Result<T, Error> {
    match reply {
        None => Err(Error::ThreadDisconnected),
        Some(Err(e)) => Err(e),
        Some(Ok(None)) => Err(Error::InvalidCast),
        Some(Ok(Some(v))) => Ok(v),
    }
}

/// Turns the engine's reply, with the caller's typed view of the value, into
/// the result of a read.
pub fn settle_reply<T>(reply: Option<Result<Option<T>, Error>>) -> (r: Result<T, Error>)
    ensures
        r == settled(reply),
{
    match reply {
        None => Err(Error::ThreadDisconnected),
        Some(Err(e)) => Err(e),
        Some(Ok(None)) => Err(Error::InvalidCast),
        Some(Ok(Some(v))) => Ok(v),
    }
}

} // verus!
