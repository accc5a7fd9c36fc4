//! The deployment route's decision: which HTTP status each outcome of a
//! plugin deployment maps to. The HTTP plumbing itself lives outside the
//! library; it hands the outcome in and sends the status back.

use vstd::prelude::*;

verus! {

/// A request to deploy a model plugin by name.
#[derive(Clone, Debug)]
pub struct DeployRequest {
    pub name: String,
}

/// What a deployment attempt can leave behind.
#[derive(Clone, Copy, Debug, PartialEq, Eq, Structural)]
pub enum CustomError {
    /// The forwarded request itself failed.
    RequestError,
    /// The schema contents were invalid.
    InvalidSchema,
    /// The schema contents could not be read.
    ReadError,
    /// The deployment service failed.
    ServerError,
}

/// The HTTP status an outcome maps to.
pub open spec fn deploy_status_of(r: Result<(), CustomError>) -> u16 {
    match r {
        Ok(()) => 200,
        Err(CustomError::InvalidSchema) => 400,
        Err(CustomError::ReadError) => 409,
        Err(CustomError::ServerError) => 400,
        Err(CustomError::RequestError) => 500,
    }
}

/// Map a deployment outcome to the HTTP status the route answers with.
pub fn deploy_response_status(outcome: &Result<(), CustomError>) -> (r: u16)
    ensures
        r == deploy_status_of(*outcome),
{
    match outcome {
        Ok(()) => 200,
        Err(CustomError::InvalidSchema) => 400,
        Err(CustomError::ReadError) => 409,
        Err(CustomError::ServerError) => 400,
        Err(CustomError::RequestError) => 500,
    }
}

} // verus!
