//! What an operation reports back: the status of a reply and the errors of a
//! store.

use vstd::prelude::*;

verus! {

/// The status of a reply.
#[derive(Clone, Copy, Debug, PartialEq, Eq, Structural)]
pub enum Status {
    /// A read or an update went through.
    Success,
    /// A record was created.
    Created,
    /// The operation went through and there is nothing to send back.
    NoContent,
    /// No record has the identifier.
    NotFound,
}

impl Status {
    /// The HTTP status code that stands for the status.
    pub open spec fn code_of(self) -> u16 {
        match self {
            Status::Success => 200,
            Status::Created => 201,
            Status::NoContent => 204,
            Status::NotFound => 404,
        }
    }

    /// The HTTP status code that stands for the status.
    pub fn code(&self) -> (c: u16)
        ensures
            c == self.code_of(),
    {
        match self {
            Status::Success => 200,
            Status::Created => 201,
            Status::NoContent => 204,
            Status::NotFound => 404,
        }
    }
}

/// Why a store turned an operation down.
#[derive(Clone, Copy, Debug, PartialEq, Eq, Structural)]
pub enum StoreError {
    /// No record has the identifier.
    NotFound,
    /// A record with the identifier is already there.
    Taken,
}

} // verus!
