//! The envelope that every answer travels in: a status and a body.

use crate::catalog::PodState;
use crate::error::ZeusError;
use crate::lifecycle::Outcome;
use vstd::prelude::*;

verus! {

/// What an answer carries. The transport writes it as JSON.
#[derive(Debug)]
pub enum Body {
    /// An object with the one key `message`.
    Message(String),
    /// An object with the one key `error`.
    Error(String),
    /// A bare string.
    Text(String),
    /// An object with the one key `routes`.
    Routes(Vec<String>),
    /// An object with the one key `templates`.
    Templates(Vec<String>),
    /// The entries of a catalog, as a list.
    Catalog(Vec<PodState>),
}

/// An answer: an HTTP status and a body.
#[derive(Debug)]
pub struct ZeusResponse {
    pub status: u16,
    pub data: Body,
}

/// The message of a request to start that ended with `outcome`.
pub open spec fn start_message(outcome: Outcome) -> Seq<char> {
    match outcome {
        Outcome::AlreadyInDesiredState => "Server already running"@,
        Outcome::Transitioned => "Pod created"@,
    }
}

/// The message of a request to stop that ended with `outcome`.
pub open spec fn stop_message(outcome: Outcome) -> Seq<char> {
    match outcome {
        Outcome::AlreadyInDesiredState => "Server already off"@,
        Outcome::Transitioned => "Server turned off"@,
    }
}

impl ZeusResponse {
    /// An answer with the given status and body.
    pub fn new(status: u16, data: Body) -> (response: ZeusResponse)
        ensures
            response.status == status,
            response.data == data,
    {
        ZeusResponse { status, data }
    }

    /// An answer with status 200 and the given body.
    pub fn ok(data: Body) -> (response: ZeusResponse)
        ensures
            response.status == 200,
            response.data == data,
    {
        ZeusResponse::new(200, data)
    }

    /// Whether the answer has the given status and carries the given
    /// message.
    pub open spec fn says(self, status: u16, message: Seq<char>) -> bool {
        &&& self.status == status
        &&& self.data matches Body::Message(text)
        &&& text@ == message
    }
}

impl ZeusError {
    /// The answer that reports the failure: its status and, as plain text,
    /// its message.
    pub fn into_response(self) -> (answer: (u16, String))
        ensures
            answer.0 == self.spec_status(),
            answer.1@ == self.message(),
    {
        match self {
            ZeusError::ClientError(message) => (400, message),
            ZeusError::ServerError(message) => (500, message),
        }
    }
}

/// The greeting.
pub fn hello() -> (response: ZeusResponse)
    ensures
        response.says(200, "Hello, World!"@),
{
    ZeusResponse::ok(Body::Message("Hello, World!".to_owned()))
}

/// The list of the top-level routes: `/hello` and `/pods`.
pub fn root() -> (response: ZeusResponse)
    ensures
        response.status == 200,
        response.data matches Body::Routes(routes) && routes.len() == 2 && routes[0]@ == "/hello"@
            && routes[1]@ == "/pods"@,
{
    let mut routes: Vec<String> = Vec::new();
    routes.push("/hello".to_owned());
    routes.push("/pods".to_owned());
    ZeusResponse::ok(Body::Routes(routes))
}

/// The liveness probe: always `OK`.
pub fn health() -> (response: ZeusResponse)
    ensures
        response.status == 200,
        response.data matches Body::Text(text) && text@ == "OK"@,
{
    ZeusResponse::ok(Body::Text("OK".to_owned()))
}

/// The answer to a request for a route that does not exist.
pub fn not_found() -> (response: ZeusResponse)
    ensures
        response.status == 404,
        response.data matches Body::Error(text) && text@ == "Not found"@,
{
    ZeusResponse::new(404, Body::Error("Not found".to_owned()))
}

/// The answer to a request to start that did not fail.
pub fn started(outcome: Outcome) -> (response: ZeusResponse)
    ensures
        response.says(200, start_message(outcome)),
{
    match outcome {
        Outcome::AlreadyInDesiredState => ZeusResponse::ok(
            Body::Message("Server already running".to_owned()),
        ),
        Outcome::Transitioned => ZeusResponse::ok(Body::Message("Pod created".to_owned())),
    }
}

/// The answer to a request to stop that did not fail.
pub fn stopped(outcome: Outcome) -> (response: ZeusResponse)
    ensures
        response.says(200, stop_message(outcome)),
{
    match outcome {
        Outcome::AlreadyInDesiredState => ZeusResponse::ok(
            Body::Message("Server already off".to_owned()),
        ),
        Outcome::Transitioned => ZeusResponse::ok(Body::Message("Server turned off".to_owned())),
    }
}

} // verus!
