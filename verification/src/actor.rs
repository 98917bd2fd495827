//! The handler contract: what a workload implements to run on the runtime.

use vstd::prelude::*;
use crate::error::Error;
use crate::message::{Request, Response};

verus! {

/// A workload. The runtime owns one for its lifetime, asks it to initialize
/// once and hands it every request that arrives after that.
pub trait Actor {
    /// Initializes the node with its own identifier and the identifiers of
    /// all nodes. An error is fatal to the node.
    fn init(&mut self, node_id: &str, node_ids: Vec<String>) -> Result<(), Error>;

    /// Receives a request and answers with the responses to send, in order:
    /// none, one reply, or many. An error is reported to the sender.
    fn receive(&mut self, request: &Request) -> Result<Vec<Response>, Error>;
}

} // verus!
