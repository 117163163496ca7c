//! Transactions: the transfers that clients submit and the reward record of a
//! block.

use crate::digest::hex_digest_of;
use crate::digest::hex_digest_text;
use crate::host::random_u32;
use crate::text::decimal;
use crate::text::decimal_string;
use vstd::prelude::*;
use vstd::std_specs::cmp::PartialEqSpecImpl;

verus! {

/// A transfer of `amount` from `sender` to `receiver`, identified by `id`.
#[derive(Debug, Default, Hash)]
pub struct Txn {
    pub id: String,
    pub sender: String,
    pub receiver: String,
    pub amount: u32,
}

/// What a transaction is, mathematically: its four fields.
pub struct TxnView {
    pub id: Seq<char>,
    pub sender: Seq<char>,
    pub receiver: Seq<char>,
    pub amount: u32,
}

impl View for Txn {
    type V = TxnView;

    open spec fn view(&self) -> TxnView {
        TxnView {
            id: self.id@,
            sender: self.sender@,
            receiver: self.receiver@,
            amount: self.amount,
        }
    }
}

/// The views of a list of transactions, in order.
pub open spec fn txn_views(txns: Seq<Txn>) -> Seq<TxnView> {
    txns.map_values(|t: Txn| t@)
}

impl PartialEq for Txn {
    /// Two transactions are equal when all four fields are.
    fn eq(&self, other: &Txn) -> (equal: bool) {
        self.id == other.id && self.sender == other.sender && self.receiver == other.receiver
            && self.amount == other.amount
    }
}

impl PartialEqSpecImpl for Txn {
    open spec fn obeys_eq_spec() -> bool {
        true
    }

    open spec fn eq_spec(&self, other: &Txn) -> bool {
        self@ == other@
    }
}

impl Eq for Txn {

}

impl Clone for Txn {
    fn clone(&self) -> (copy: Txn)
        ensures
            copy == *self,
    {
        Txn {
            id: self.id.clone(),
            sender: self.sender.clone(),
            receiver: self.receiver.clone(),
            amount: self.amount,
        }
    }
}

/// The identifier of a new transaction: the hexadecimal SHA-256 digest of
/// sender, receiver, the amount in decimal and a noise number in decimal,
/// one after the other.
pub open spec fn txn_id(sender: Seq<char>, receiver: Seq<char>, amount: u32, noise: u32) -> Seq<
    char,
> {
    hex_digest_of(sender + receiver + decimal(amount as nat) + decimal(noise as nat))
}

impl Txn {
    /// A new transaction under a fresh identifier, made from the fields and a
    /// random number.
    pub fn new(sender: String, receiver: String, amount: u32) -> (txn: Txn)
        ensures
            txn@.sender == sender@,
            txn@.receiver == receiver@,
            txn@.amount == amount,
            exists|noise: u32| txn@.id == txn_id(sender@, receiver@, amount, noise),
    {
        let noise = random_u32();
        let id = Txn::calculate_id(sender.as_str(), receiver.as_str(), amount, noise);
        Txn { id, sender, receiver, amount }
    }

    /// A transaction under an identifier that the caller already has.
    pub fn with_id(id: String, sender: String, receiver: String, amount: u32) -> (txn: Txn)
        ensures
            txn@ == (TxnView { id: id@, sender: sender@, receiver: receiver@, amount }),
    {
        Txn { id, sender, receiver, amount }
    }

    /// The identifier that the fields and a noise number give: 64 hexadecimal
    /// characters.
    pub fn calculate_id(sender: &str, receiver: &str, amount: u32, noise: u32) -> (id: String)
        ensures
            id@ == txn_id(sender@, receiver@, amount, noise),
            id@.len() == 64,
    {
        let mut text = String::from_str(sender);
        text.append(receiver);
        text.append(decimal_string(amount as u64).as_str());
        text.append(decimal_string(noise as u64).as_str());
        hex_digest_text(text.as_str())
    }
}

/// The reward record in a block's header: who mined the block, and for how
/// much.
#[derive(Debug, Hash)]
pub struct CoinbaseTxn {
    pub amount: u8,
    pub validator: String,
}

/// What a reward record is, mathematically.
pub struct CoinbaseView {
    pub amount: u8,
    pub validator: Seq<char>,
}

impl View for CoinbaseTxn {
    type V = CoinbaseView;

    open spec fn view(&self) -> CoinbaseView {
        CoinbaseView { amount: self.amount, validator: self.validator@ }
    }
}

impl PartialEq for CoinbaseTxn {
    /// Two reward records are equal when both fields are.
    fn eq(&self, other: &CoinbaseTxn) -> (equal: bool) {
        self.amount == other.amount && self.validator == other.validator
    }
}

impl PartialEqSpecImpl for CoinbaseTxn {
    open spec fn obeys_eq_spec() -> bool {
        true
    }

    open spec fn eq_spec(&self, other: &CoinbaseTxn) -> bool {
        self@ == other@
    }
}

impl Eq for CoinbaseTxn {

}

impl Clone for CoinbaseTxn {
    fn clone(&self) -> (copy: CoinbaseTxn)
        ensures
            copy == *self,
    {
        CoinbaseTxn { amount: self.amount, validator: self.validator.clone() }
    }
}

impl CoinbaseTxn {
    /// The empty record that a block carries until it is mined.
    pub fn new() -> (coinbase: CoinbaseTxn)
        ensures
            coinbase@ == (CoinbaseView { amount: 0, validator: Seq::empty() }),
    {
        CoinbaseTxn { amount: 0, validator: String::new() }
    }
}

} // verus!
