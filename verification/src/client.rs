//! What a client asks of a node.

use crate::transaction::txn_id;
use crate::transaction::Txn;
use vstd::prelude::*;
use vstd::std_specs::cmp::PartialEqSpecImpl;

verus! {

/// A request of the client program.
#[derive(Debug)]
pub enum Command {
    /// Transfer `value` from `sender` to `receiver`.
    Txn { sender: String, receiver: String, value: u32 },
}

impl PartialEq for Command {
    /// Two requests are equal when all their fields are.
    fn eq(&self, other: &Command) -> (equal: bool) {
        match (self, other) {
            (
                Command::Txn { sender, receiver, value },
                Command::Txn { sender: other_sender, receiver: other_receiver, value: other_value },
            ) => *sender == *other_sender && *receiver == *other_receiver && *value
                == *other_value,
        }
    }
}

impl PartialEqSpecImpl for Command {
    open spec fn obeys_eq_spec() -> bool {
        true
    }

    open spec fn eq_spec(&self, other: &Command) -> bool {
        match (self, other) {
            (
                Command::Txn { sender, receiver, value },
                Command::Txn { sender: other_sender, receiver: other_receiver, value: other_value },
            ) => sender@ == other_sender@ && receiver@ == other_receiver@ && value == other_value,
        }
    }
}

impl Eq for Command {

}

impl Clone for Command {
    fn clone(&self) -> (copy: Command)
        ensures
            copy == *self,
    {
        match self {
            Command::Txn { sender, receiver, value } => Command::Txn {
                sender: sender.clone(),
                receiver: receiver.clone(),
                value: *value,
            },
        }
    }
}

impl Command {
    /// The transaction that the request stands for, under a fresh
    /// identifier.
    pub fn into_txn(self) -> (txn: Txn)
        ensures
            self matches Command::Txn { sender, receiver, value } && {
                &&& txn@.sender == sender@
                &&& txn@.receiver == receiver@
                &&& txn@.amount == value
                &&& exists|noise: u32| txn@.id == txn_id(sender@, receiver@, value, noise)
            },
    {
        match self {
            Command::Txn { sender, receiver, value } => Txn::new(sender, receiver, value),
        }
    }
}

} // verus!
