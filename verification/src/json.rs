//! The canonical JSON text of transactions and blocks, which their hashes are
//! taken over: fixed field order, no whitespace.

use crate::block::Block;
use crate::block::BlockHeader;
use crate::block::BlockView;
use crate::block::HeaderView;
use crate::error::EncodeError;
use crate::text::decimal;
use crate::text::decimal_string;
use crate::transaction::txn_views;
use crate::transaction::CoinbaseTxn;
use crate::transaction::CoinbaseView;
use crate::transaction::Txn;
use crate::transaction::TxnView;
use vstd::prelude::*;

verus! {

/// The error of `serde_json`, carried from the call to where it is mapped.
#[verifier::external_type_specification]
#[verifier::external_body]
pub struct ExJsonError(serde_json::Error);

/// What `serde_json::to_string` makes of a string: its JSON text, quoted and
/// escaped, or nothing where the call fails.
pub uninterp spec fn json_string(s: Seq<char>) -> Option<Seq<char>>;

/// `serde_json::to_string` on a string slice. The contract names the outcome,
/// text or failure, as a function of the characters handed in.
#[verifier::external_body]
pub(crate) fn to_json_string(s: &str) -> (out: Result<String, serde_json::Error>)
    ensures
        match out {
            Ok(text) => json_string(s@) == Some(text@),
            Err(_) => json_string(s@) is None,
        },
{
    serde_json::to_string(s)
}

/// Appends the JSON text of the string `s` to `out`.
fn append_json_string(out: &mut String, s: &str) -> (done: Result<(), EncodeError>)
    ensures
        match done {
            Ok(_) => json_string(s@) is Some && final(out)@ == old(out)@ + json_string(s@)->0,
            Err(_) => json_string(s@) is None && final(out)@ == old(out)@,
        },
{
    match to_json_string(s) {
        Ok(quoted) => {
            out.append(quoted.as_str());
            Ok(())
        },
        Err(_) => Err(EncodeError::Json),
    }
}

/// The JSON object of a transaction: `id`, `sender`, `receiver`, `amount`, in
/// that order.
pub open spec fn txn_json(t: TxnView) -> Option<Seq<char>> {
    if json_string(t.id) is Some && json_string(t.sender) is Some && json_string(t.receiver)
        is Some {
        Some(
            "{\"id\":"@ + json_string(t.id)->0 + ",\"sender\":"@ + json_string(t.sender)->0
                + ",\"receiver\":"@ + json_string(t.receiver)->0 + ",\"amount\":"@ + decimal(
                t.amount as nat,
            ) + "}"@,
        )
    } else {
        None
    }
}

/// Writes the JSON object of a transaction.
pub fn txn_json_text(t: &Txn) -> (out: Result<String, EncodeError>)
    ensures
        match out {
            Ok(text) => txn_json(t@) == Some(text@),
            Err(_) => txn_json(t@) is None,
        },
{
    let mut text = String::from_str("{\"id\":");
    if let Err(e) = append_json_string(&mut text, t.id.as_str()) {
        return Err(e);
    }
    text.append(",\"sender\":");
    if let Err(e) = append_json_string(&mut text, t.sender.as_str()) {
        return Err(e);
    }
    text.append(",\"receiver\":");
    if let Err(e) = append_json_string(&mut text, t.receiver.as_str()) {
        return Err(e);
    }
    text.append(",\"amount\":");
    text.append(decimal_string(t.amount as u64).as_str());
    text.append("}");
    Ok(text)
}

/// The JSON objects of a list of transactions, with a comma between each two.
pub open spec fn txn_list_json(txns: Seq<TxnView>) -> Option<Seq<char>>
    decreases txns.len(),
{
    if txns.len() == 0 {
        Some(Seq::empty())
    } else if txn_list_json(txns.drop_last()) is Some && txn_json(txns.last()) is Some {
        if txns.len() == 1 {
            txn_json(txns.last())
        } else {
            Some(txn_list_json(txns.drop_last())->0 + ","@ + txn_json(txns.last())->0)
        }
    } else {
        None
    }
}

/// A list without JSON form has none however it is continued.
proof fn lemma_txn_list_json_prefix(txns: Seq<TxnView>, n: int)
    requires
        0 <= n <= txns.len(),
        txn_list_json(txns.take(n)) is None,
    ensures
        txn_list_json(txns) is None,
    decreases txns.len() - n,
{
    if n < txns.len() {
        assert(txns.take(n + 1).drop_last() =~= txns.take(n));
        lemma_txn_list_json_prefix(txns, n + 1);
    } else {
        assert(txns.take(n) =~= txns);
    }
}

/// Writes the JSON objects of a list of transactions, comma-separated.
pub fn txn_list_json_text(txns: &Vec<Txn>) -> (out: Result<String, EncodeError>)
    ensures
        match out {
            Ok(text) => txn_list_json(txn_views(txns@)) == Some(text@),
            Err(_) => txn_list_json(txn_views(txns@)) is None,
        },
{
    let ghost views = txn_views(txns@);
    let mut text = String::new();
    let mut i: usize = 0;
    while i < txns.len()
        invariant
            i <= txns.len(),
            views == txn_views(txns@),
            txn_list_json(views.take(i as int)) == Some(text@),
        decreases txns.len() - i,
    {
        proof {
            assert(views.take(i + 1).drop_last() =~= views.take(i as int));
            assert(views.take(i + 1).last() == txns[i as int]@);
        }
        match txn_json_text(&txns[i]) {
            Ok(item) => {
                if i > 0 {
                    text.append(",");
                }
                text.append(item.as_str());
            },
            Err(e) => {
                proof {
                    lemma_txn_list_json_prefix(views, i + 1);
                }
                return Err(e);
            },
        }
        i = i + 1;
    }
    proof {
        assert(views.take(i as int) =~= views);
    }
    Ok(text)
}

/// The JSON object of a reward record: `amount`, `validator`.
pub open spec fn coinbase_json(c: CoinbaseView) -> Option<Seq<char>> {
    if json_string(c.validator) is Some {
        Some(
            "{\"amount\":"@ + decimal(c.amount as nat) + ",\"validator\":"@ + json_string(
                c.validator,
            )->0 + "}"@,
        )
    } else {
        None
    }
}

/// Writes the JSON object of a reward record.
pub fn coinbase_json_text(c: &CoinbaseTxn) -> (out: Result<String, EncodeError>)
    ensures
        match out {
            Ok(text) => coinbase_json(c@) == Some(text@),
            Err(_) => coinbase_json(c@) is None,
        },
{
    let mut text = String::from_str("{\"amount\":");
    text.append(decimal_string(c.amount as u64).as_str());
    text.append(",\"validator\":");
    if let Err(e) = append_json_string(&mut text, c.validator.as_str()) {
        return Err(e);
    }
    text.append("}");
    Ok(text)
}

/// The JSON object of a header, its fields in the order of their declaration.
pub open spec fn header_json(h: HeaderView) -> Option<Seq<char>> {
    if json_string(h.previous_hash) is Some && json_string(h.current_hash) is Some && coinbase_json(
        h.coinbase_txn,
    ) is Some && json_string(h.merkle_root) is Some {
        Some(
            "{\"timestamp\":"@ + decimal(h.timestamp as nat) + ",\"index\":"@ + decimal(
                h.index as nat,
            ) + ",\"previous_hash\":"@ + json_string(h.previous_hash)->0 + ",\"current_hash\":"@
                + json_string(h.current_hash)->0 + ",\"coinbase_txn\":"@ + coinbase_json(
                h.coinbase_txn,
            )->0 + ",\"merkle_root\":"@ + json_string(h.merkle_root)->0 + ",\"nonce\":"@ + decimal(
                h.nonce as nat,
            ) + ",\"difficulty\":"@ + decimal(h.difficulty as nat) + "}"@,
        )
    } else {
        None
    }
}

/// Writes the JSON object of a header.
pub fn header_json_text(h: &BlockHeader) -> (out: Result<String, EncodeError>)
    ensures
        match out {
            Ok(text) => header_json(h@) == Some(text@),
            Err(_) => header_json(h@) is None,
        },
{
    let mut text = String::from_str("{\"timestamp\":");
    text.append(decimal_string(h.timestamp).as_str());
    text.append(",\"index\":");
    text.append(decimal_string(h.index as u64).as_str());
    text.append(",\"previous_hash\":");
    if let Err(e) = append_json_string(&mut text, h.previous_hash.as_str()) {
        return Err(e);
    }
    text.append(",\"current_hash\":");
    if let Err(e) = append_json_string(&mut text, h.current_hash.as_str()) {
        return Err(e);
    }
    text.append(",\"coinbase_txn\":");
    match coinbase_json_text(&h.coinbase_txn) {
        Ok(coinbase) => {
            text.append(coinbase.as_str());
        },
        Err(e) => {
            return Err(e);
        },
    }
    text.append(",\"merkle_root\":");
    if let Err(e) = append_json_string(&mut text, h.merkle_root.as_str()) {
        return Err(e);
    }
    text.append(",\"nonce\":");
    text.append(decimal_string(h.nonce as u64).as_str());
    text.append(",\"difficulty\":");
    text.append(decimal_string(h.difficulty as u64).as_str());
    text.append("}");
    Ok(text)
}

/// The JSON object of a block: `header`, then `body` with its `txn_data`.
pub open spec fn block_json(b: BlockView) -> Option<Seq<char>> {
    if header_json(b.header) is Some && txn_list_json(b.body.txn_data) is Some {
        Some(
            "{\"header\":"@ + header_json(b.header)->0 + ",\"body\":{\"txn_data\":["@
                + txn_list_json(b.body.txn_data)->0 + "]}}"@,
        )
    } else {
        None
    }
}

/// Writes the JSON object of a block.
pub fn block_json_text(b: &Block) -> (out: Result<String, EncodeError>)
    ensures
        match out {
            Ok(text) => block_json(b@) == Some(text@),
            Err(_) => block_json(b@) is None,
        },
{
    let mut text = String::from_str("{\"header\":");
    match header_json_text(&b.header) {
        Ok(header) => {
            text.append(header.as_str());
        },
        Err(e) => {
            return Err(e);
        },
    }
    text.append(",\"body\":{\"txn_data\":[");
    match txn_list_json_text(&b.body.txn_data) {
        Ok(list) => {
            text.append(list.as_str());
        },
        Err(e) => {
            return Err(e);
        },
    }
    text.append("]}}");
    Ok(text)
}

} // verus!
