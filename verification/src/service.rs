//! The greeting service interface: a request, a response, a server trait
//! and the reference server.

use vstd::prelude::*;
use crate::greet::{greeting_chars, Greetable};

verus! {

/// The service error.
#[derive(Debug)]
pub enum Error {
    Misc,
}

impl Error {
    /// The error's message.
    pub fn message(&self) -> (r: String)
        ensures
            r@ == "Misc Error"@,
    {
        let r = String::from_str("Misc Error");
        r
    }
}

/// A request to greet a name.
pub struct GreetRequest {
    pub name: String,
}

/// The greeting produced for a request.
pub struct GreetResponse {
    pub greeting: String,
}

/// A server that greets. An implementation may fail a request, but
/// whenever it succeeds, the response carries the greeting for the
/// request's name.
pub trait Server {
    /// Greets the request's name.
    fn greet(&self, request: GreetRequest) -> (r: Result<GreetResponse, Error>)
        ensures
            (r matches Result::Ok(resp) ==> resp.greeting@ == greeting_chars(request.name@)),
    ;
}

/// The reference server: greets every request.
pub struct FooServer;

impl Server for FooServer {
    fn greet(&self, request: GreetRequest) -> (r: Result<GreetResponse, Error>) {
        let greeting = request.name.greet();
        Result::Ok(GreetResponse { greeting })
    }
}

} // verus!
