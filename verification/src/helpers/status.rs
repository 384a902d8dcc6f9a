//! The outcomes that a request can be turned down with.

use vstd::prelude::*;

verus! {

/// Why a request was not served. Each variant stands for the HTTP status of
/// the same name.
#[derive(Clone, Copy, Debug, PartialEq, Eq, Structural)]
pub enum Status {
    BadRequest,
    Unauthorized,
    PaymentRequired,
    NotAcceptable,
    Gone,
    ImATeapot,
    UnprocessableEntity,
    InternalServerError,
}

impl Status {
    /// The numeric HTTP status code.
    pub open spec fn spec_code(self) -> u16 {
        match self {
            Status::BadRequest => 400,
            Status::Unauthorized => 401,
            Status::PaymentRequired => 402,
            Status::NotAcceptable => 406,
            Status::Gone => 410,
            Status::ImATeapot => 418,
            Status::UnprocessableEntity => 422,
            Status::InternalServerError => 500,
        }
    }

    /// The numeric HTTP status code.
    pub fn code(&self) -> (code: u16)
        ensures
            code == self.spec_code(),
            400 <= code < 600,
    {
        match self {
            Status::BadRequest => 400,
            Status::Unauthorized => 401,
            Status::PaymentRequired => 402,
            Status::NotAcceptable => 406,
            Status::Gone => 410,
            Status::ImATeapot => 418,
            Status::UnprocessableEntity => 422,
            Status::InternalServerError => 500,
        }
    }
}

} // verus!
