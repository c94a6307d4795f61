//! Handling messages one at a time.

use vstd::prelude::*;

verus! {

/// What a registry or a connection does with one kind of message. Each
/// implementation says in its own contract what it changes and what it gives
/// back.
pub trait Handler<M> {
    /// What handling the message gives back.
    type Result;

    /// Handles one message.
    fn handle(&mut self, msg: M) -> Self::Result;
}

} // verus!
