//! The protocol identifier of the request/response exchange.
use vstd::prelude::*;

verus! {

/// The tag under which both ends of a connection negotiate the protocol.
/// Two nodes speak to each other only if their tags are equal.
pub const PROTOCOL_ID: &'static str = "/my-protocol/1.0";

/// The payload of a request: one line of text.
pub type MyRequest = String;

/// The payload of a response: one line of text.
pub type MyResponse = String;

/// The one protocol that a node offers and asks for.
#[derive(Debug)]
pub struct MyProtocol();

impl Clone for MyProtocol {
    fn clone(&self) -> (copy: MyProtocol)
        ensures
            copy == *self,
    {
        MyProtocol()
    }
}

impl AsRef<str> for MyProtocol {
    /// The protocol's identifier.
    fn as_ref(&self) -> (id: &str)
        ensures
            id@ == PROTOCOL_ID@,
    {
        PROTOCOL_ID
    }
}

} // verus!
