//! The miner: the search for a nonce under which the block hash meets the
//! target, and the sealing of the block that was found.

use crate::block::merkle_root;
use crate::block::Block;
use crate::block::BlockView;
use crate::block::BodyView;
use crate::block::HeaderView;
use crate::block::MerkleRoot;
use crate::blockchain::block_hash;
use crate::blockchain::block_hash_input;
use crate::blockchain::committed;
use crate::blockchain::proven;
use crate::blockchain::txn_batch_hash;
use crate::blockchain::BlockChain;
use crate::blockchain::GENESIS_PREVIOUS_HASH;
use crate::digest::hash_meets_target;
use crate::digest::hex_digest_of;
use crate::digest::hex_digest_text;
use crate::digest::meets_target;
use crate::error::MineError;
use crate::host::random_u32;
use crate::host::unix_seconds;
use crate::json::block_json;
use crate::json::block_json_text;
use crate::text::decimal;
use crate::text::decimal_string;
use crate::transaction::txn_views;
use crate::transaction::CoinbaseView;
use crate::transaction::Txn;
use crate::transaction::TxnView;
use vstd::prelude::*;

verus! {

/// What the miner of a block is paid.
pub const REWARD: u8 = 50;

/// After how many hashes a miner that shares its thread gives way.
pub const YIELD_INTERVAL: u32 = 10000;

/// How many nonces there are.
pub const NONCES: u64 = 0x1_0000_0000;

/// The unmined block that a miner starts from: one past `parent`, over
/// `txns`, with their Merkle root and the first nonce to try. There is none
/// where a transaction has no JSON form.
pub open spec fn candidate_block(
    txns: Seq<TxnView>,
    parent: BlockView,
    difficulty: u8,
    timestamp: u64,
    nonce: u32,
) -> Option<BlockView> {
    if merkle_root(txns) is Some {
        Some(
            BlockView {
                header: HeaderView {
                    timestamp,
                    index: (parent.header.index + 1) as u32,
                    previous_hash: parent.header.current_hash,
                    current_hash: Seq::empty(),
                    coinbase_txn: CoinbaseView { amount: 0, validator: Seq::empty() },
                    merkle_root: merkle_root(txns)->0,
                    nonce,
                    difficulty,
                },
                body: BodyView { txn_data: txns },
            },
        )
    } else {
        None
    }
}

/// The unmined genesis block: index 0, no parent, no transaction.
pub open spec fn genesis_block(difficulty: u8, timestamp: u64, nonce: u32) -> BlockView {
    BlockView {
        header: HeaderView {
            timestamp,
            index: 0,
            previous_hash: GENESIS_PREVIOUS_HASH@,
            current_hash: Seq::empty(),
            coinbase_txn: CoinbaseView { amount: 0, validator: Seq::empty() },
            merkle_root: hex_digest_of(Seq::empty()),
            nonce,
            difficulty,
        },
        body: BodyView { txn_data: Seq::empty() },
    }
}

/// `b` under another nonce.
pub open spec fn with_nonce(b: BlockView, nonce: u32) -> BlockView {
    BlockView { header: HeaderView { nonce, ..b.header }, body: b.body }
}

/// The nonce `steps` after `start`; behind the largest nonce comes 0.
pub open spec fn nonce_after(start: u32, steps: int) -> u32 {
    ((start + steps) % 0x1_0000_0000) as u32
}

/// Whether `b` meets its target under `nonce`.
pub open spec fn hit(b: BlockView, nonce: u32) -> bool {
    meets_target(block_hash(with_nonce(b, nonce)), b.header.difficulty)
}

/// Whether the search from the nonce of `b` hits first after `misses`
/// nonces that do not.
pub open spec fn first_hit(b: BlockView, misses: int) -> bool {
    &&& 0 <= misses
    &&& hit(b, nonce_after(b.header.nonce, misses))
    &&& forall|j: int| 0 <= j < misses ==> !hit(b, nonce_after(b.header.nonce, j))
}

/// The name under which a miner signs: `0x` and a number in decimal.
pub open spec fn validator_name(noise: u32) -> Seq<char> {
    "0x"@ + decimal(noise as nat)
}

/// `b` with the reward filled in.
pub open spec fn rewarded(b: BlockView, noise: u32) -> BlockView {
    BlockView {
        header: HeaderView {
            coinbase_txn: CoinbaseView { amount: REWARD, validator: validator_name(noise) },
            ..b.header
        },
        body: b.body,
    }
}

/// `b` as it is published: the reward filled in, then `current_hash` set to
/// the hexadecimal digest of the block's JSON text. There is none where the
/// block has no JSON form.
pub open spec fn sealed(b: BlockView, noise: u32) -> Option<BlockView> {
    let paid = rewarded(b, noise);
    if block_json(paid) is Some {
        Some(
            BlockView {
                header: HeaderView {
                    current_hash: hex_digest_of(block_json(paid)->0),
                    ..paid.header
                },
                body: paid.body,
            },
        )
    } else {
        None
    }
}

/// How a search ends that hits after `misses` misses: with the sealed block,
/// or with the error of a block that has no JSON form.
pub open spec fn finished(b: BlockView, misses: int, noise: u32) -> Result<BlockView, MineError> {
    let found = with_nonce(b, nonce_after(b.header.nonce, misses));
    if sealed(found, noise) is Some {
        Ok(sealed(found, noise)->0)
    } else {
        Err(MineError::Unencodable)
    }
}

/// How a search from `b` over up to `budget` nonces ends: as `finished` says
/// where one of them hits, else exhausted.
pub open spec fn search_ends(
    b: BlockView,
    budget: int,
    noise: u32,
    end: Result<BlockView, MineError>,
) -> bool {
    if exists|k: int| 0 <= k < budget && first_hit(b, k) {
        exists|k: int| 0 <= k < budget && first_hit(b, k) && end == finished(b, k, noise)
    } else {
        end == Err::<BlockView, MineError>(MineError::Exhausted)
    }
}

/// How mining over `txns` on top of `parent` ends, with the time stamp, the
/// first nonce and the validator number that the miner took.
pub open spec fn mining_ends(
    txns: Seq<TxnView>,
    parent: BlockView,
    difficulty: u8,
    timestamp: u64,
    nonce: u32,
    noise: u32,
    end: Result<BlockView, MineError>,
) -> bool {
    let candidate = candidate_block(txns, parent, difficulty, timestamp, nonce);
    if candidate is Some {
        search_ends(candidate->0, NONCES as int, noise, end)
    } else {
        end == Err::<BlockView, MineError>(MineError::Unencodable)
    }
}

/// How mining the genesis block ends, with the time stamp, the first nonce
/// and the validator number that the miner took.
pub open spec fn genesis_mining_ends(
    difficulty: u8,
    timestamp: u64,
    nonce: u32,
    noise: u32,
    end: Result<BlockView, MineError>,
) -> bool {
    search_ends(genesis_block(difficulty, timestamp, nonce), NONCES as int, noise, end)
}

/// Whether `current_hash` of `b` is the identifier under which `b` is
/// published: the hexadecimal digest of the JSON text that `b` has while its
/// `current_hash` is still empty.
pub open spec fn published(b: BlockView) -> bool {
    let bare = BlockView {
        header: HeaderView { current_hash: Seq::empty(), ..b.header },
        body: b.body,
    };
    block_json(bare) is Some && b.header.current_hash == hex_digest_of(block_json(bare)->0)
}

/// What holds of a block that was mined over `txns` on top of `parent`.
pub open spec fn mined_on(
    parent: BlockView,
    txns: Seq<TxnView>,
    difficulty: u8,
    b: BlockView,
) -> bool {
    &&& b.header.index == parent.header.index + 1
    &&& b.header.previous_hash == parent.header.current_hash
    &&& b.header.difficulty == difficulty
    &&& b.body.txn_data == txns
    &&& committed(b)
    &&& proven(b)
    &&& published(b)
    &&& b.header.coinbase_txn.amount == REWARD
}

/// What holds of a genesis block that was mined.
pub open spec fn mined_genesis(difficulty: u8, b: BlockView) -> bool {
    &&& b.header.index == 0
    &&& b.header.previous_hash == GENESIS_PREVIOUS_HASH@
    &&& b.header.difficulty == difficulty
    &&& b.body.txn_data == Seq::<TxnView>::empty()
    &&& committed(b)
    &&& proven(b)
    &&& published(b)
    &&& b.header.coinbase_txn.amount == REWARD
}

/// A result of the miner, the block taken by its view.
pub open spec fn as_views(out: Result<Block, MineError>) -> Result<BlockView, MineError> {
    match out {
        Ok(block) => Ok(block@),
        Err(e) => Err(e),
    }
}

/// The hash of a block does not depend on its reward or on `current_hash`.
pub proof fn lemma_sealed_hash(b: BlockView, noise: u32)
    requires
        sealed(b, noise) is Some,
    ensures
        block_hash(sealed(b, noise)->0) == block_hash(b),
        sealed(b, noise)->0.header.nonce == b.header.nonce,
        sealed(b, noise)->0.header.difficulty == b.header.difficulty,
{
    let s = sealed(b, noise)->0;
    assert(block_hash_input(s) == block_hash_input(b));
}

/// A search that ends with a block ends with one that carries its proof of
/// work and differs from the candidate in nonce, reward and `current_hash`
/// only; and `current_hash` is the block's published identifier where the
/// candidate had none.
pub proof fn lemma_search_ends(b: BlockView, budget: int, noise: u32, block: BlockView)
    requires
        search_ends(b, budget, noise, Ok(block)),
    ensures
        proven(block),
        b.header.current_hash == Seq::<char>::empty() ==> published(block),
        block.header.coinbase_txn.amount == REWARD,
        block.header.coinbase_txn.validator == validator_name(noise),
        block.header.index == b.header.index,
        block.header.previous_hash == b.header.previous_hash,
        block.header.merkle_root == b.header.merkle_root,
        block.header.difficulty == b.header.difficulty,
        block.header.timestamp == b.header.timestamp,
        block.body == b.body,
{
    let k = choose|k: int| 0 <= k < budget && first_hit(b, k) && Ok::<BlockView, MineError>(block)
        == finished(b, k, noise);
    let found = with_nonce(b, nonce_after(b.header.nonce, k));
    lemma_sealed_hash(found, noise);
    if b.header.current_hash == Seq::<char>::empty() {
        let bare = BlockView {
            header: HeaderView { current_hash: Seq::empty(), ..block.header },
            body: block.body,
        };
        assert(bare == rewarded(found, noise));
    }
}

/// Where mining ends with a block, the block is mined on its parent.
pub proof fn lemma_mining_ends(
    txns: Seq<TxnView>,
    parent: BlockView,
    difficulty: u8,
    timestamp: u64,
    nonce: u32,
    noise: u32,
    block: BlockView,
)
    requires
        parent.header.index < u32::MAX,
        mining_ends(txns, parent, difficulty, timestamp, nonce, noise, Ok(block)),
    ensures
        mined_on(parent, txns, difficulty, block),
{
    let candidate = candidate_block(txns, parent, difficulty, timestamp, nonce)->0;
    lemma_search_ends(candidate, NONCES as int, noise, block);
}

/// Where the search from the genesis candidate ends with a block, the block
/// is a mined genesis block.
pub proof fn lemma_genesis_ends(
    difficulty: u8,
    timestamp: u64,
    nonce: u32,
    noise: u32,
    block: BlockView,
)
    requires
        genesis_mining_ends(difficulty, timestamp, nonce, noise, Ok(block)),
    ensures
        mined_genesis(difficulty, block),
{
    lemma_search_ends(genesis_block(difficulty, timestamp, nonce), NONCES as int, noise, block);
}

/// Every nonce is reached within `NONCES` steps from any start.
pub proof fn lemma_all_nonces(start: u32, nonce: u32) -> (steps: int)
    ensures
        0 <= steps < NONCES,
        nonce_after(start, steps) == nonce,
{
    if nonce >= start {
        nonce - start
    } else {
        nonce + 0x1_0000_0000 - start
    }
}

/// What one stretch of a search came to.
#[derive(Debug)]
pub enum Progress {
    /// No nonce of the stretch hit; the search goes on.
    Working,
    /// A nonce hit, and this is the sealed block.
    Mined(Block),
    /// A nonce hit, but the block could not be sealed.
    Failed(MineError),
}

/// A block under the miner's hands: the next nonce to try is the one in its
/// header.
#[derive(Debug)]
pub struct Mine {
    block: Block,
}

impl View for Mine {
    type V = BlockView;

    closed spec fn view(&self) -> BlockView {
        self.block@
    }
}

impl Mine {
    /// A miner over `txns` on top of `previous_block`, with the time stamp
    /// and the first nonce that the caller gives.
    pub fn candidate(
        txns: Vec<Txn>,
        previous_block: &Block,
        difficulty: u8,
        timestamp: u64,
        nonce: u32,
    ) -> (out: Result<Mine, MineError>)
        requires
            previous_block@.header.index < u32::MAX,
        ensures
            match out {
                Ok(miner) => candidate_block(
                    txn_views(txns@),
                    previous_block@,
                    difficulty,
                    timestamp,
                    nonce,
                ) == Some(miner@),
                Err(e) => {
                    &&& candidate_block(
                        txn_views(txns@),
                        previous_block@,
                        difficulty,
                        timestamp,
                        nonce,
                    ) is None
                    &&& e == MineError::Unencodable
                },
            },
    {
        let root = match MerkleRoot::from(&txns) {
            Ok(root) => root,
            Err(_) => {
                return Err(MineError::Unencodable);
            },
        };
        let mut block = Block::at(
            previous_block.header.current_hash.clone(),
            txns,
            previous_block.header.index + 1,
            difficulty,
            timestamp,
        );
        block.header.merkle_root = root;
        block.header.nonce = nonce;
        Ok(Mine { block })
    }

    /// A miner of the genesis block.
    pub fn genesis_candidate(difficulty: u8, timestamp: u64, nonce: u32) -> (miner: Mine)
        ensures
            miner@ == genesis_block(difficulty, timestamp, nonce),
    {
        let mut block = Block::at(
            String::from_str(GENESIS_PREVIOUS_HASH),
            Vec::new(),
            0,
            difficulty,
            timestamp,
        );
        block.header.merkle_root = MerkleRoot::of_nothing();
        block.header.nonce = nonce;
        assert(block@.body.txn_data =~= Seq::<TxnView>::empty());
        Mine { block }
    }

    /// A miner over `txns` on top of `previous_block`, stamped with the
    /// current time, that starts at a random nonce.
    pub fn start(txns: Vec<Txn>, previous_block: &Block, difficulty: u8) -> (out: Result<
        Mine,
        MineError,
    >)
        requires
            previous_block@.header.index < u32::MAX,
        ensures
            match out {
                Ok(miner) => exists|timestamp: u64, nonce: u32|
                    candidate_block(
                        txn_views(txns@),
                        previous_block@,
                        difficulty,
                        timestamp,
                        nonce,
                    ) == Some(miner@),
                Err(e) => merkle_root(txn_views(txns@)) is None && e == MineError::Unencodable,
            },
    {
        Mine::candidate(txns, previous_block, difficulty, unix_seconds(), random_u32())
    }

    /// A miner of the genesis block, stamped with the current time, that
    /// starts at a random nonce.
    pub fn start_genesis(difficulty: u8) -> (miner: Mine)
        ensures
            exists|timestamp: u64, nonce: u32|
                miner@ == genesis_block(difficulty, timestamp, nonce),
    {
        Mine::genesis_candidate(difficulty, unix_seconds(), random_u32())
    }

    /// The block as the search has left it.
    pub fn block(&self) -> (block: &Block)
        ensures
            block@ == self@,
    {
        &self.block
    }

    /// Tries up to `budget` nonces, from the one in the header on, and stops
    /// at the first under which the block hash meets the target. Returns how
    /// many nonces missed before that one, or `None` where all of them did.
    /// The header then holds the nonce that hit, or the next one to try.
    pub fn search(&mut self, budget: u64) -> (misses: Option<u64>)
        ensures
            match misses {
                Some(k) => {
                    &&& k < budget
                    &&& first_hit(old(self)@, k as int)
                    &&& final(self)@ == with_nonce(
                        old(self)@,
                        nonce_after(old(self)@.header.nonce, k as int),
                    )
                },
                None => {
                    &&& forall|j: int|
                        0 <= j < budget ==> !hit(
                            old(self)@,
                            #[trigger] nonce_after(old(self)@.header.nonce, j),
                        )
                    &&& final(self)@ == with_nonce(
                        old(self)@,
                        nonce_after(old(self)@.header.nonce, budget as int),
                    )
                },
            },
    {
        let ghost start = self@;
        let batch_hash = BlockChain::hash_txn_batch(&self.block.body.txn_data);
        let mut tried: u64 = 0;
        while tried < budget
            invariant
                tried <= budget,
                start == old(self)@,
                self@ == with_nonce(start, nonce_after(start.header.nonce, tried as int)),
                batch_hash@ == txn_batch_hash(start.body.txn_data),
                forall|j: int|
                    0 <= j < tried ==> !hit(start, #[trigger] nonce_after(start.header.nonce, j)),
            decreases budget - tried,
        {
            let hash = BlockChain::hash_header(&self.block.header, batch_hash.as_str());
            if hash_meets_target(hash.as_slice(), self.block.header.difficulty) {
                return Some(tried);
            }
            let nonce = self.block.header.nonce;
            self.block.header.nonce = if nonce == u32::MAX {
                0
            } else {
                nonce + 1
            };
            tried = tried + 1;
        }
        None
    }

    /// Fills in the reward under the name that `noise` gives, and sets
    /// `current_hash` to the digest of the block's JSON text.
    pub fn seal(self, noise: u32) -> (out: Result<Block, MineError>)
        ensures
            match out {
                Ok(block) => sealed(self@, noise) == Some(block@),
                Err(e) => sealed(self@, noise) is None && e == MineError::Unencodable,
            },
    {
        let mut block = self.block;
        let mut validator = String::from_str("0x");
        validator.append(decimal_string(noise as u64).as_str());
        block.header.coinbase_txn.amount = REWARD;
        block.header.coinbase_txn.validator = validator;
        match block_json_text(&block) {
            Ok(json) => {
                block.header.current_hash = hex_digest_text(json.as_str());
                Ok(block)
            },
            Err(_) => Err(MineError::Unencodable),
        }
    }

    /// One stretch of the search: up to `YIELD_INTERVAL` nonces. Where one
    /// hits, the block is sealed under the name that `noise` gives. A miner
    /// that shares its thread gives way between two stretches.
    pub fn advance_with(&mut self, noise: u32) -> (progress: Progress)
        ensures
            match progress {
                Progress::Working => {
                    &&& forall|j: int|
                        0 <= j < YIELD_INTERVAL ==> !hit(
                            old(self)@,
                            #[trigger] nonce_after(old(self)@.header.nonce, j),
                        )
                    &&& final(self)@ == with_nonce(
                        old(self)@,
                        nonce_after(old(self)@.header.nonce, YIELD_INTERVAL as int),
                    )
                },
                Progress::Mined(block) => exists|k: int|
                    0 <= k < YIELD_INTERVAL && first_hit(old(self)@, k) && finished(
                        old(self)@,
                        k,
                        noise,
                    ) == Ok::<BlockView, MineError>(block@) && final(self)@ == with_nonce(
                        old(self)@,
                        nonce_after(old(self)@.header.nonce, k),
                    ),
                Progress::Failed(e) => exists|k: int|
                    0 <= k < YIELD_INTERVAL && first_hit(old(self)@, k) && finished(
                        old(self)@,
                        k,
                        noise,
                    ) == Err::<BlockView, MineError>(e) && final(self)@ == with_nonce(
                        old(self)@,
                        nonce_after(old(self)@.header.nonce, k),
                    ),
            },
    {
        match self.search(YIELD_INTERVAL as u64) {
            None => Progress::Working,
            Some(k) => {
                let found = Mine { block: self.block.clone() };
                match found.seal(noise) {
                    Ok(block) => {
                        assert(finished(old(self)@, k as int, noise) == Ok::<BlockView, MineError>(
                            block@,
                        ));
                        Progress::Mined(block)
                    },
                    Err(e) => {
                        assert(finished(old(self)@, k as int, noise) == Err::<
                            BlockView,
                            MineError,
                        >(e));
                        Progress::Failed(e)
                    },
                }
            },
        }
    }

    /// One stretch of the search, the block sealed under a random name where
    /// a nonce hits.
    pub fn advance(&mut self) -> (progress: Progress)
        ensures
            match progress {
                Progress::Working => {
                    &&& forall|j: int|
                        0 <= j < YIELD_INTERVAL ==> !hit(
                            old(self)@,
                            #[trigger] nonce_after(old(self)@.header.nonce, j),
                        )
                    &&& final(self)@ == with_nonce(
                        old(self)@,
                        nonce_after(old(self)@.header.nonce, YIELD_INTERVAL as int),
                    )
                },
                Progress::Mined(block) => exists|k: int, noise: u32|
                    0 <= k < YIELD_INTERVAL && first_hit(old(self)@, k) && #[trigger] finished(
                        old(self)@,
                        k,
                        noise,
                    ) == Ok::<BlockView, MineError>(block@) && final(self)@ == with_nonce(
                        old(self)@,
                        nonce_after(old(self)@.header.nonce, k),
                    ),
                Progress::Failed(e) => exists|k: int, noise: u32|
                    0 <= k < YIELD_INTERVAL && first_hit(old(self)@, k) && #[trigger] finished(
                        old(self)@,
                        k,
                        noise,
                    ) == Err::<BlockView, MineError>(e) && final(self)@ == with_nonce(
                        old(self)@,
                        nonce_after(old(self)@.header.nonce, k),
                    ),
            },
    {
        self.advance_with(random_u32())
    }

    /// The search to its end: up to `budget` nonces, from the one in the
    /// header on. Ends with the sealed block of the first nonce that hits, or
    /// exhausted where none of them does. With a budget of `NONCES` or more
    /// every nonce is tried, and the search is exhausted only where no nonce
    /// at all hits.
    pub fn run(self, budget: u64, noise: u32) -> (out: Result<Block, MineError>)
        ensures
            search_ends(self@, budget as int, noise, as_views(out)),
            budget >= NONCES ==> (out == Err::<Block, MineError>(MineError::Exhausted)
                <==> forall|n: u32| !hit(self@, n)),
    {
        let mut miner = self;
        match miner.search(budget) {
            None => {
                proof {
                    if budget >= NONCES {
                        assert forall|n: u32| !hit(self@, n) by {
                            let j = lemma_all_nonces(self@.header.nonce, n);
                            assert(!hit(self@, nonce_after(self@.header.nonce, j)));
                        }
                    }
                }
                Err(MineError::Exhausted)
            },
            Some(k) => {
                let out = miner.seal(noise);
                proof {
                    assert(as_views(out) == finished(self@, k as int, noise));
                    assert(hit(self@, nonce_after(self@.header.nonce, k as int)));
                }
                out
            },
        }
    }

    /// Mines a block over `txns` on top of `previous_block`, with the time
    /// stamp, the first nonce and the validator number that the caller
    /// gives.
    pub fn mine_with(
        txns: Vec<Txn>,
        previous_block: &Block,
        difficulty: u8,
        timestamp: u64,
        nonce: u32,
        noise: u32,
    ) -> (out: Result<Block, MineError>)
        requires
            previous_block@.header.index < u32::MAX,
        ensures
            mining_ends(
                txn_views(txns@),
                previous_block@,
                difficulty,
                timestamp,
                nonce,
                noise,
                as_views(out),
            ),
            out matches Ok(block) ==> mined_on(
                previous_block@,
                txn_views(txns@),
                difficulty,
                block@,
            ),
    {
        let ghost views = txn_views(txns@);
        let out = match Mine::candidate(txns, previous_block, difficulty, timestamp, nonce) {
            Ok(miner) => miner.run(NONCES, noise),
            Err(e) => Err(e),
        };
        proof {
            if let Ok(block) = &out {
                lemma_mining_ends(
                    views,
                    previous_block@,
                    difficulty,
                    timestamp,
                    nonce,
                    noise,
                    block@,
                );
            }
        }
        out
    }

    /// Mines a block over `txns` on top of `previous_block`: stamped with the
    /// current time, searched from a random nonce, signed with a random
    /// name. The search runs to its end without giving way; a miner that
    /// shares its thread uses `start` and `advance`.
    pub fn mine(txns: Vec<Txn>, previous_block: &Block, difficulty: u8) -> (out: Result<
        Block,
        MineError,
    >)
        requires
            previous_block@.header.index < u32::MAX,
        ensures
            exists|timestamp: u64, nonce: u32, noise: u32|
                mining_ends(
                    txn_views(txns@),
                    previous_block@,
                    difficulty,
                    timestamp,
                    nonce,
                    noise,
                    as_views(out),
                ),
            out matches Ok(block) ==> mined_on(
                previous_block@,
                txn_views(txns@),
                difficulty,
                block@,
            ),
    {
        let timestamp = unix_seconds();
        let nonce = random_u32();
        let noise = random_u32();
        Mine::mine_with(txns, previous_block, difficulty, timestamp, nonce, noise)
    }

    /// Mines the genesis block with the time stamp, the first nonce and the
    /// validator number that the caller gives.
    pub fn mine_genesis_with(difficulty: u8, timestamp: u64, nonce: u32, noise: u32) -> (out:
        Result<Block, MineError>)
        ensures
            genesis_mining_ends(difficulty, timestamp, nonce, noise, as_views(out)),
            out matches Ok(block) ==> mined_genesis(difficulty, block@),
    {
        let out = Mine::genesis_candidate(difficulty, timestamp, nonce).run(NONCES, noise);
        proof {
            if let Ok(block) = &out {
                lemma_genesis_ends(difficulty, timestamp, nonce, noise, block@);
            }
        }
        out
    }

    /// Mines the genesis block: stamped with the current time, searched from
    /// a random nonce, signed with a random name.
    pub fn mine_genesis(difficulty: u8) -> (out: Result<Block, MineError>)
        ensures
            exists|timestamp: u64, nonce: u32, noise: u32|
                genesis_mining_ends(difficulty, timestamp, nonce, noise, as_views(out)),
            out matches Ok(block) ==> mined_genesis(difficulty, block@),
    {
        let timestamp = unix_seconds();
        let nonce = random_u32();
        let noise = random_u32();
        Mine::mine_genesis_with(difficulty, timestamp, nonce, noise)
    }
}

} // verus!
