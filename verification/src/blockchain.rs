//! The chain: blocks in order, the rule by which it grows, and the hashes
//! that the rule and the miner go by.

use crate::block::block_views;
use crate::block::merkle_root;
use crate::block::Block;
use crate::block::BlockHeader;
use crate::block::BlockView;
use crate::block::HeaderView;
use crate::digest::digest_of;
use crate::digest::digest_text;
use crate::digest::hex_digest_of;
use crate::digest::hex_digest_text;
use crate::digest::meets_target;
use crate::error::ChainError;
use crate::text::decimal;
use crate::text::decimal_string;
use crate::transaction::txn_views;
use crate::transaction::Txn;
use crate::transaction::TxnView;
use vstd::prelude::*;

verus! {

/// The `previous_hash` of a genesis block.
pub const GENESIS_PREVIOUS_HASH: &'static str = "00000";

/// The hash of one transaction: the hexadecimal SHA-256 digest of `id`,
/// `sender`, `receiver` and the amount in decimal, one after the other.
pub open spec fn txn_hash(t: TxnView) -> Seq<char> {
    hex_digest_of(t.id + t.sender + t.receiver + decimal(t.amount as nat))
}

/// The hashes of a list of transactions, one after the other.
pub open spec fn txn_hashes(txns: Seq<TxnView>) -> Seq<char>
    decreases txns.len(),
{
    if txns.len() == 0 {
        Seq::empty()
    } else {
        txn_hashes(txns.drop_last()) + txn_hash(txns.last())
    }
}

/// The hash of a list of transactions: that of the transaction itself where
/// there is exactly one, else the hexadecimal digest of all their hashes in
/// a row.
pub open spec fn txn_batch_hash(txns: Seq<TxnView>) -> Seq<char> {
    if txns.len() == 1 {
        txn_hash(txns[0])
    } else {
        hex_digest_of(txn_hashes(txns))
    }
}

/// The text that the block hash is taken over: index, `previous_hash`,
/// difficulty, time stamp and nonce, the numbers in decimal, then the hash of
/// the transactions.
pub open spec fn header_hash_input(h: HeaderView, batch_hash: Seq<char>) -> Seq<char> {
    decimal(h.index as nat) + h.previous_hash + decimal(h.difficulty as nat) + decimal(
        h.timestamp as nat,
    ) + decimal(h.nonce as nat) + batch_hash
}

/// The text that the hash of the block `b` is taken over.
pub open spec fn block_hash_input(b: BlockView) -> Seq<char> {
    header_hash_input(b.header, txn_batch_hash(b.body.txn_data))
}

/// The block hash, which the proof of work is about.
pub open spec fn block_hash(b: BlockView) -> Seq<u8> {
    digest_of(block_hash_input(b))
}

/// Whether `block` may be appended to `chain`: the chain is empty, or the
/// block names the hash of the chain's last block as its parent.
pub open spec fn extends(chain: Seq<BlockView>, block: BlockView) -> bool {
    chain.len() == 0 || block.header.previous_hash == chain.last().header.current_hash
}

/// Whether the header of `b` commits to the transactions of `b`: its Merkle
/// root is theirs.
pub open spec fn committed(b: BlockView) -> bool {
    merkle_root(b.body.txn_data) == Some(b.header.merkle_root)
}

/// Whether `b` carries its proof of work: its hash starts with at least as
/// many zero bits as its difficulty asks for.
pub open spec fn proven(b: BlockView) -> bool {
    meets_target(block_hash(b), b.header.difficulty)
}

/// Whether the blocks of `chain` hang together: the first is a genesis
/// block, with index 0 and no parent, and each other block names the
/// `current_hash` of the one before it and has the next index.
pub open spec fn linked(chain: Seq<BlockView>) -> bool {
    &&& chain.len() > 0 ==> {
        &&& chain[0].header.index == 0
        &&& chain[0].header.previous_hash == GENESIS_PREVIOUS_HASH@
    }
    &&& forall|i: int|
        0 < i < chain.len() ==> {
            &&& (#[trigger] chain[i]).header.previous_hash == chain[i - 1].header.current_hash
            &&& chain[i].header.index == chain[i - 1].header.index + 1
        }
}

/// Whether `chain` is one that honest nodes build: linked, and each block
/// committed to its transactions and carrying its proof of work.
pub open spec fn valid_chain(chain: Seq<BlockView>) -> bool {
    &&& linked(chain)
    &&& forall|i: int| 0 <= i < chain.len() ==> committed(#[trigger] chain[i])
    &&& forall|i: int| 0 <= i < chain.len() ==> proven(#[trigger] chain[i])
}

/// The index of block `i` of a linked chain is `i`.
pub proof fn lemma_linked_indices(chain: Seq<BlockView>, i: int)
    requires
        linked(chain),
        0 <= i < chain.len(),
    ensures
        chain[i].header.index == i,
    decreases i,
{
    if i > 0 {
        lemma_linked_indices(chain, i - 1);
    }
}

/// A valid chain stays valid under a block that names its last block as
/// parent, has the next index, is committed to its transactions and carries
/// its proof of work; and such a block extends the chain.
pub proof fn lemma_valid_chain_grows(chain: Seq<BlockView>, block: BlockView)
    requires
        valid_chain(chain),
        chain.len() > 0,
        block.header.previous_hash == chain.last().header.current_hash,
        block.header.index == chain.last().header.index + 1,
        committed(block),
        proven(block),
    ensures
        extends(chain, block),
        valid_chain(chain.push(block)),
{
    let longer = chain.push(block);
    assert forall|i: int| 0 < i < longer.len() implies {
        &&& (#[trigger] longer[i]).header.previous_hash == longer[i - 1].header.current_hash
        &&& longer[i].header.index == longer[i - 1].header.index + 1
    } by {
        if i < chain.len() {
            assert(longer[i] == chain[i]);
        }
    }
    assert forall|i: int| 0 <= i < longer.len() implies committed(#[trigger] longer[i]) by {
        if i < chain.len() {
            assert(longer[i] == chain[i]);
        }
    }
    assert forall|i: int| 0 <= i < longer.len() implies proven(#[trigger] longer[i]) by {
        if i < chain.len() {
            assert(longer[i] == chain[i]);
        }
    }
}

/// A genesis block that is committed to its transactions and carries its
/// proof of work is a valid chain by itself.
pub proof fn lemma_valid_chain_starts(block: BlockView)
    requires
        block.header.index == 0,
        block.header.previous_hash == GENESIS_PREVIOUS_HASH@,
        committed(block),
        proven(block),
    ensures
        extends(Seq::empty(), block),
        valid_chain(Seq::<BlockView>::empty().push(block)),
{
}

/// An ordered sequence of blocks.
#[derive(Debug)]
pub struct BlockChain {
    pub blocks: Vec<Block>,
}

impl View for BlockChain {
    type V = Seq<BlockView>;

    open spec fn view(&self) -> Seq<BlockView> {
        block_views(self.blocks@)
    }
}

impl Clone for BlockChain {
    fn clone(&self) -> (copy: BlockChain)
        ensures
            copy@ == self@,
    {
        let blocks = self.blocks.clone();
        assert(block_views(blocks@) =~= block_views(self.blocks@));
        BlockChain { blocks }
    }
}

impl BlockChain {
    /// The empty chain.
    pub fn new() -> (chain: BlockChain)
        ensures
            chain@ == Seq::<BlockView>::empty(),
    {
        let chain = BlockChain { blocks: Vec::new() };
        assert(chain@ =~= Seq::<BlockView>::empty());
        chain
    }

    /// `current_hash` of the last block.
    pub fn tip(&self) -> (hash: String)
        requires
            self@.len() > 0,
        ensures
            hash@ == self@.last().header.current_hash,
    {
        self.blocks[self.blocks.len() - 1].header.current_hash.clone()
    }

    /// All blocks of the chain, in order.
    pub fn all_blocks_in_longest_chain(&self) -> (blocks: Vec<Block>)
        ensures
            block_views(blocks@) == self@,
    {
        let blocks = self.blocks.clone();
        assert(block_views(blocks@) =~= block_views(self.blocks@));
        blocks
    }

    /// Appends `new_block` where it extends the chain, and hands back a copy
    /// of the chain as it then is. Where it does not, the chain stays as it
    /// was. Neither the proof of work nor the Merkle root is looked at.
    pub fn add_block(&mut self, new_block: Block) -> (out: Result<BlockChain, ChainError>)
        ensures
            match out {
                Ok(chain) => {
                    &&& extends(old(self)@, new_block@)
                    &&& final(self)@ == old(self)@.push(new_block@)
                    &&& chain@ == final(self)@
                },
                Err(e) => {
                    &&& !extends(old(self)@, new_block@)
                    &&& final(self)@ == old(self)@
                    &&& e == ChainError::InvalidExtension
                },
            },
    {
        let count = self.blocks.len();
        if count > 0 {
            let tip = &self.blocks[count - 1];
            if new_block.header.previous_hash != tip.header.current_hash {
                return Err(ChainError::InvalidExtension);
            }
        }
        self.blocks.push(new_block);
        assert(self@ =~= old(self)@.push(new_block@));
        Ok(self.clone())
    }

    /// The block hash of `block`.
    pub fn hash_block(block: &Block) -> (hash: Vec<u8>)
        ensures
            hash@ == block_hash(block@),
            hash@.len() == 32,
    {
        let batch_hash = BlockChain::hash_txn_batch(&block.body.txn_data);
        BlockChain::hash_header(&block.header, batch_hash.as_str())
    }

    /// The block hash of a block with the header `header` whose transactions
    /// hash to `batch_hash`.
    pub fn hash_header(header: &BlockHeader, batch_hash: &str) -> (hash: Vec<u8>)
        ensures
            hash@ == digest_of(header_hash_input(header@, batch_hash@)),
            hash@.len() == 32,
    {
        let mut text = decimal_string(header.index as u64);
        text.append(header.previous_hash.as_str());
        text.append(decimal_string(header.difficulty as u64).as_str());
        text.append(decimal_string(header.timestamp).as_str());
        text.append(decimal_string(header.nonce as u64).as_str());
        text.append(batch_hash);
        digest_text(text.as_str())
    }

    /// The hash of a list of transactions.
    pub fn hash_txn_batch(txns: &Vec<Txn>) -> (hash: String)
        ensures
            hash@ == txn_batch_hash(txn_views(txns@)),
    {
        if txns.len() == 1 {
            return BlockChain::hash_txn(&txns[0]);
        }
        let ghost views = txn_views(txns@);
        let mut text = String::new();
        let mut i: usize = 0;
        while i < txns.len()
            invariant
                i <= txns.len(),
                views == txn_views(txns@),
                text@ == txn_hashes(views.take(i as int)),
            decreases txns.len() - i,
        {
            proof {
                assert(views.take(i + 1).drop_last() =~= views.take(i as int));
            }
            text.append(BlockChain::hash_txn(&txns[i]).as_str());
            i = i + 1;
        }
        proof {
            assert(views.take(i as int) =~= views);
        }
        hex_digest_text(text.as_str())
    }

    /// The hash of one transaction.
    pub fn hash_txn(txn: &Txn) -> (hash: String)
        ensures
            hash@ == txn_hash(txn@),
            hash@.len() == 64,
    {
        let mut text = txn.id.clone();
        text.append(txn.sender.as_str());
        text.append(txn.receiver.as_str());
        text.append(decimal_string(txn.amount as u64).as_str());
        hex_digest_text(text.as_str())
    }
}

} // verus!
