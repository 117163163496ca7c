//! Blocks: a header that commits to a list of transactions, and the Merkle
//! root that the commitment is made of.

use crate::digest::hex_digest_of;
use crate::digest::sha256_hex;
use crate::error::EncodeError;
use crate::host::unix_seconds;
use crate::json::txn_json;
use crate::json::txn_json_text;
use crate::transaction::txn_views;
use crate::transaction::CoinbaseTxn;
use crate::transaction::CoinbaseView;
use crate::transaction::Txn;
use crate::transaction::TxnView;
use vstd::prelude::*;

verus! {

/// The transactions that a block commits.
#[derive(Debug, Hash)]
pub struct Body {
    pub txn_data: Vec<Txn>,
}

/// What a body is, mathematically.
pub struct BodyView {
    pub txn_data: Seq<TxnView>,
}

impl View for Body {
    type V = BodyView;

    open spec fn view(&self) -> BodyView {
        BodyView { txn_data: txn_views(self.txn_data@) }
    }
}

impl Clone for Body {
    fn clone(&self) -> (copy: Body)
        ensures
            copy@ == self@,
    {
        let txn_data = self.txn_data.clone();
        assert(txn_data@ =~= self.txn_data@);
        Body { txn_data }
    }
}

/// The header of a block.
#[derive(Debug, Hash)]
pub struct BlockHeader {
    /// Seconds since the Unix epoch at which the block was made.
    pub timestamp: u64,
    /// The block's place in its chain; the genesis block has 0.
    pub index: u32,
    /// `current_hash` of the parent; the genesis block has `"00000"`.
    pub previous_hash: String,
    /// The published identifier; empty until the block is mined.
    pub current_hash: String,
    pub coinbase_txn: CoinbaseTxn,
    pub merkle_root: String,
    pub nonce: u32,
    /// How many leading zero bits the block hash must have.
    pub difficulty: u8,
}

/// What a header is, mathematically.
pub struct HeaderView {
    pub timestamp: u64,
    pub index: u32,
    pub previous_hash: Seq<char>,
    pub current_hash: Seq<char>,
    pub coinbase_txn: CoinbaseView,
    pub merkle_root: Seq<char>,
    pub nonce: u32,
    pub difficulty: u8,
}

impl View for BlockHeader {
    type V = HeaderView;

    open spec fn view(&self) -> HeaderView {
        HeaderView {
            timestamp: self.timestamp,
            index: self.index,
            previous_hash: self.previous_hash@,
            current_hash: self.current_hash@,
            coinbase_txn: self.coinbase_txn@,
            merkle_root: self.merkle_root@,
            nonce: self.nonce,
            difficulty: self.difficulty,
        }
    }
}

impl Clone for BlockHeader {
    fn clone(&self) -> (copy: BlockHeader)
        ensures
            copy == *self,
    {
        BlockHeader {
            timestamp: self.timestamp,
            index: self.index,
            previous_hash: self.previous_hash.clone(),
            current_hash: self.current_hash.clone(),
            coinbase_txn: self.coinbase_txn.clone(),
            merkle_root: self.merkle_root.clone(),
            nonce: self.nonce,
            difficulty: self.difficulty,
        }
    }
}

/// A block: header and body.
#[derive(Debug, Hash)]
pub struct Block {
    pub header: BlockHeader,
    pub body: Body,
}

/// What a block is, mathematically.
pub struct BlockView {
    pub header: HeaderView,
    pub body: BodyView,
}

impl View for Block {
    type V = BlockView;

    open spec fn view(&self) -> BlockView {
        BlockView { header: self.header@, body: self.body@ }
    }
}

impl Clone for Block {
    fn clone(&self) -> (copy: Block)
        ensures
            copy@ == self@,
    {
        Block { header: self.header.clone(), body: self.body.clone() }
    }
}

/// The views of a list of blocks, in order.
pub open spec fn block_views(blocks: Seq<Block>) -> Seq<BlockView> {
    blocks.map_values(|b: Block| b@)
}

/// The block that `Block::new` makes at time `timestamp`: nothing mined yet.
pub open spec fn fresh_block(
    previous_hash: Seq<char>,
    txn_data: Seq<TxnView>,
    index: u32,
    difficulty: u8,
    timestamp: u64,
) -> BlockView {
    BlockView {
        header: HeaderView {
            timestamp,
            index,
            previous_hash,
            current_hash: Seq::empty(),
            coinbase_txn: CoinbaseView { amount: 0, validator: Seq::empty() },
            merkle_root: Seq::empty(),
            nonce: 0,
            difficulty,
        },
        body: BodyView { txn_data },
    }
}

impl Block {
    /// An unmined block over `txn_data`, stamped with the current time: empty
    /// `current_hash`, empty coinbase, empty Merkle root, nonce 0.
    pub fn new(previous_hash: String, txn_data: Vec<Txn>, index: u32, difficulty: u8) -> (block:
        Block)
        ensures
            block@ == fresh_block(
                previous_hash@,
                txn_views(txn_data@),
                index,
                difficulty,
                block@.header.timestamp,
            ),
    {
        Block::at(previous_hash, txn_data, index, difficulty, unix_seconds())
    }

    /// The unmined block over `txn_data` with the given time stamp.
    pub fn at(
        previous_hash: String,
        txn_data: Vec<Txn>,
        index: u32,
        difficulty: u8,
        timestamp: u64,
    ) -> (block: Block)
        ensures
            block@ == fresh_block(
                previous_hash@,
                txn_views(txn_data@),
                index,
                difficulty,
                timestamp,
            ),
    {
        Block {
            header: BlockHeader {
                timestamp,
                index,
                previous_hash,
                current_hash: String::new(),
                coinbase_txn: CoinbaseTxn::new(),
                merkle_root: String::new(),
                nonce: 0,
                difficulty,
            },
            body: Body { txn_data },
        }
    }
}

/// The texts of a list of strings, in order.
pub open spec fn texts(strings: Seq<String>) -> Seq<Seq<char>> {
    strings.map_values(|s: String| s@)
}

/// The leaves of the Merkle tree: for each transaction the hexadecimal digest
/// of its JSON object. There are none where a transaction has no JSON form.
pub open spec fn merkle_leaves(txns: Seq<TxnView>) -> Option<Seq<Seq<char>>> {
    if forall|i: int| 0 <= i < txns.len() ==> txn_json(#[trigger] txns[i]) is Some {
        Some(Seq::new(txns.len(), |i: int| hex_digest_of(txn_json(txns[i])->0)))
    } else {
        None
    }
}

/// A level with its last node once more at the end.
pub open spec fn duplicate_last(level: Seq<Seq<char>>) -> Seq<Seq<char>> {
    level.push(level.last())
}

/// The level above `level`: each two neighbours joined and hashed.
pub open spec fn merkle_pairs(level: Seq<Seq<char>>) -> Seq<Seq<char>> {
    Seq::new(level.len() / 2, |i: int| hex_digest_of(level[2 * i] + level[2 * i + 1]))
}

/// The level above `level`, made even where it has more than one node.
pub open spec fn merkle_parents(level: Seq<Seq<char>>) -> Seq<Seq<char>> {
    let parents = merkle_pairs(level);
    if parents.len() > 1 && parents.len() % 2 == 1 {
        duplicate_last(parents)
    } else {
        parents
    }
}

/// The single node that the levels above `level` end in.
pub open spec fn merkle_fold(level: Seq<Seq<char>>) -> Seq<char>
    decreases level.len(),
{
    if level.len() == 0 {
        Seq::empty()
    } else if level.len() == 1 {
        level[0]
    } else {
        merkle_fold(merkle_parents(level))
    }
}

/// The Merkle root of a list of transactions: the digest of the empty text
/// for no transaction; else the fold of the leaves, the last one doubled
/// where their count is odd.
pub open spec fn merkle_root(txns: Seq<TxnView>) -> Option<Seq<char>> {
    if txns.len() == 0 {
        Some(hex_digest_of(Seq::empty()))
    } else if merkle_leaves(txns) is Some {
        let leaves = merkle_leaves(txns)->0;
        Some(
            merkle_fold(
                if leaves.len() % 2 == 1 {
                    duplicate_last(leaves)
                } else {
                    leaves
                },
            ),
        )
    } else {
        None
    }
}

/// The Merkle root of a block's transactions.
#[derive(Debug)]
pub struct MerkleRoot;

impl MerkleRoot {
    /// The empty root of a block that is not mined yet.
    pub fn new() -> (root: String)
        ensures
            root@ == Seq::<char>::empty(),
    {
        String::new()
    }

    /// The Merkle root of no transaction: the digest of the empty text.
    pub fn of_nothing() -> (root: String)
        ensures
            merkle_root(Seq::empty()) == Some(root@),
    {
        sha256_hex(String::new().as_str().as_bytes())
    }

    /// Hashes each transaction's JSON object into a leaf.
    fn leaves(txns: &Vec<Txn>) -> (out: Result<Vec<String>, EncodeError>)
        ensures
            match out {
                Ok(leaves) => merkle_leaves(txn_views(txns@)) == Some(texts(leaves@)),
                Err(_) => merkle_leaves(txn_views(txns@)) is None,
            },
    {
        let ghost views = txn_views(txns@);
        let mut leaves: Vec<String> = Vec::new();
        let mut i: usize = 0;
        while i < txns.len()
            invariant
                i <= txns.len(),
                views == txn_views(txns@),
                leaves@.len() == i,
                forall|j: int| 0 <= j < i ==> txn_json(#[trigger] views[j]) is Some,
                forall|j: int|
                    0 <= j < i ==> (#[trigger] leaves@[j])@ == hex_digest_of(txn_json(views[j])->0),
            decreases txns.len() - i,
        {
            match txn_json_text(&txns[i]) {
                Ok(json) => {
                    leaves.push(sha256_hex(json.as_str().as_bytes()));
                },
                Err(e) => {
                    assert(txn_json(views[i as int]) is None);
                    return Err(e);
                },
            }
            i = i + 1;
        }
        assert(texts(leaves@) =~= merkle_leaves(views)->0);
        Ok(leaves)
    }

    /// Joins and hashes each two neighbours of `level`.
    fn pairs(level: &Vec<String>) -> (parents: Vec<String>)
        ensures
            texts(parents@) == merkle_pairs(texts(level@)),
    {
        let mut parents: Vec<String> = Vec::new();
        let count = level.len() / 2;
        let mut i: usize = 0;
        while i < count
            invariant
                i <= count,
                count == level.len() / 2,
                parents@.len() == i,
                forall|j: int|
                    0 <= j < i ==> (#[trigger] parents@[j])@ == hex_digest_of(
                        level@[2 * j]@ + level@[2 * j + 1]@,
                    ),
            decreases count - i,
        {
            let mut joined = level[2 * i].clone();
            joined.append(level[2 * i + 1].as_str());
            parents.push(sha256_hex(joined.as_str().as_bytes()));
            i = i + 1;
        }
        assert(texts(parents@) =~= merkle_pairs(texts(level@)));
        parents
    }

    /// Appends a copy of the last node.
    fn double_last(level: &mut Vec<String>)
        requires
            old(level)@.len() > 0,
        ensures
            texts(final(level)@) == duplicate_last(texts(old(level)@)),
    {
        let last = level[level.len() - 1].clone();
        level.push(last);
        assert(texts(level@) =~= duplicate_last(texts(old(level)@)));
    }

    /// The Merkle root of `txns`, or the error of a transaction that has no
    /// JSON form.
    pub fn from(txns: &Vec<Txn>) -> (out: Result<String, EncodeError>)
        ensures
            match out {
                Ok(root) => merkle_root(txn_views(txns@)) == Some(root@),
                Err(_) => merkle_root(txn_views(txns@)) is None,
            },
    {
        if txns.len() == 0 {
            return Ok(MerkleRoot::of_nothing());
        }
        let mut level = match MerkleRoot::leaves(txns) {
            Ok(leaves) => leaves,
            Err(e) => {
                return Err(e);
            },
        };
        if level.len() % 2 == 1 {
            MerkleRoot::double_last(&mut level);
        }
        let ghost root = merkle_fold(texts(level@));
        while level.len() > 1
            invariant
                level@.len() > 0,
                merkle_fold(texts(level@)) == root,
            decreases level@.len(),
        {
            let mut parents = MerkleRoot::pairs(&level);
            if parents.len() > 1 && parents.len() % 2 == 1 {
                MerkleRoot::double_last(&mut parents);
            }
            assert(texts(parents@) == merkle_parents(texts(level@)));
            level = parents;
        }
        Ok(level[0].clone())
    }
}

} // verus!
