//! The node: what it holds, and what it does on each event. The node decides;
//! the program around it performs the effects that it asks for.

use crate::block::merkle_root;
use crate::block::Block;
use crate::block::BlockView;
use crate::block::MerkleRoot;
use crate::blockchain::committed;
use crate::blockchain::extends;
use crate::blockchain::lemma_valid_chain_grows;
use crate::blockchain::lemma_valid_chain_starts;
use crate::blockchain::linked;
use crate::blockchain::proven;
use crate::blockchain::valid_chain;
use crate::blockchain::BlockChain;
use crate::blockchain::GENESIS_PREVIOUS_HASH;
use crate::error::NetworkError;
use crate::mempool::Mempool;
use crate::miner::mined_genesis;
use crate::miner::mined_on;
use crate::ordered::inserted;
use crate::ordered::merged;
use crate::ordered::without;
use crate::peers::Address;
use crate::peers::Peers;
use crate::transaction::txn_views;
use crate::transaction::Txn;
use crate::transaction::TxnView;
use vstd::prelude::*;

verus! {

/// What nodes send each other.
#[derive(Debug)]
#[allow(inconsistent_fields)]
pub enum Message {
    /// A transaction, from a client or passed on by a peer.
    Txn { id: String, sender: String, receiver: String, amount: u32 },
    /// A request for the chain, to be answered to `receiver`.
    GetState { receiver: Address },
    /// A node's chain and the peers that it knows.
    ShareState { from: Address, peers: Vec<Address>, state: BlockChain },
}

/// What a message is, mathematically.
pub enum MessageView {
    Txn { txn: TxnView },
    GetState { receiver: Address },
    ShareState { from: Address, peers: Seq<Address>, state: Seq<BlockView> },
}

impl View for Message {
    type V = MessageView;

    open spec fn view(&self) -> MessageView {
        match self {
            Message::Txn { id, sender, receiver, amount } => MessageView::Txn {
                txn: TxnView { id: id@, sender: sender@, receiver: receiver@, amount: *amount },
            },
            Message::GetState { receiver } => MessageView::GetState { receiver: *receiver },
            Message::ShareState { from, peers, state } => MessageView::ShareState {
                from: *from,
                peers: peers@,
                state: state@,
            },
        }
    }
}

impl Clone for Message {
    fn clone(&self) -> (copy: Message)
        ensures
            copy@ == self@,
    {
        match self {
            Message::Txn { id, sender, receiver, amount } => Message::Txn {
                id: id.clone(),
                sender: sender.clone(),
                receiver: receiver.clone(),
                amount: *amount,
            },
            Message::GetState { receiver } => Message::GetState { receiver: *receiver },
            Message::ShareState { from, peers, state } => {
                let addresses = peers.clone();
                assert(addresses@ =~= peers@);
                Message::ShareState { from: *from, peers: addresses, state: state.clone() }
            },
        }
    }
}

impl Message {
    /// The message that carries `txn`.
    pub fn from_txn(txn: Txn) -> (message: Message)
        ensures
            message@ == (MessageView::Txn { txn: txn@ }),
    {
        Message::Txn { id: txn.id, sender: txn.sender, receiver: txn.receiver, amount: txn.amount }
    }

    /// The transaction that a `Txn` message carries; nothing for the other
    /// messages.
    pub fn into_txn(self) -> (txn: Option<Txn>)
        ensures
            match txn {
                Some(t) => self@ == (MessageView::Txn { txn: t@ }),
                None => !(self is Txn),
            },
    {
        match self {
            Message::Txn { id, sender, receiver, amount } => Some(
                Txn::with_id(id, sender, receiver, amount),
            ),
            _ => None,
        }
    }
}

/// What the node asks the program around it to do.
#[derive(Debug)]
#[allow(inconsistent_fields)]
pub enum Effect {
    /// Send `message` to the peer `to`.
    Send { to: Address, message: Message },
    /// Send `message` to each of the peers `to`.
    Broadcast { to: Vec<Address>, message: Message },
    /// Stop the miner that runs, if one does, and start one over `txns` on
    /// top of `parent`; without a parent, one of the genesis block.
    Mine { parent: Option<Block>, txns: Vec<Txn>, difficulty: u8 },
}

/// What an effect is, mathematically.
#[allow(inconsistent_fields)]
pub enum EffectView {
    Send { to: Address, message: MessageView },
    Broadcast { to: Seq<Address>, message: MessageView },
    Mine { parent: Option<BlockView>, txns: Seq<TxnView>, difficulty: u8 },
}

impl View for Effect {
    type V = EffectView;

    open spec fn view(&self) -> EffectView {
        match self {
            Effect::Send { to, message } => EffectView::Send { to: *to, message: message@ },
            Effect::Broadcast { to, message } => EffectView::Broadcast {
                to: to@,
                message: message@,
            },
            Effect::Mine { parent, txns, difficulty } => EffectView::Mine {
                parent: match parent {
                    Some(block) => Some(block@),
                    None => None,
                },
                txns: txn_views(txns@),
                difficulty: *difficulty,
            },
        }
    }
}

/// The views of a list of effects, in order.
pub open spec fn effect_views(effects: Seq<Effect>) -> Seq<EffectView> {
    effects.map_values(|e: Effect| e@)
}

/// What happens to a node.
#[derive(Debug)]
pub enum Event {
    /// The node starts.
    Start,
    /// The miner hands in a block.
    Mined(Block),
    /// A client submits a transaction.
    Client(Txn),
    /// A peer sends a message.
    Peer(Message),
}

/// What an event is, mathematically.
pub enum EventView {
    Start,
    Mined(BlockView),
    Client(TxnView),
    Peer(MessageView),
}

impl View for Event {
    type V = EventView;

    open spec fn view(&self) -> EventView {
        match self {
            Event::Start => EventView::Start,
            Event::Mined(block) => EventView::Mined(block@),
            Event::Client(txn) => EventView::Client(txn@),
            Event::Peer(message) => EventView::Peer(message@),
        }
    }
}

/// What the node answers to whoever caused an event.
#[derive(Debug)]
pub enum Reply {
    /// Nobody waits for an answer.
    Nothing,
    /// The acknowledgement that a peer gets, whatever its message led to.
    Peer(String),
    /// The status that a client gets: a text for a transaction that was new,
    /// none for one that was pending already.
    Client(Option<String>),
}

/// The text of a status, where there is one.
pub open spec fn status_view(status: Option<String>) -> Option<Seq<char>> {
    match status {
        Some(text) => Some(text@),
        None => None,
    }
}

/// The view of a message, where there is one.
pub open spec fn answer_view(answer: Option<Message>) -> Option<MessageView> {
    match answer {
        Some(message) => Some(message@),
        None => None,
    }
}

/// What a reply is, mathematically.
pub enum ReplyView {
    Nothing,
    Peer(Seq<char>),
    Client(Option<Seq<char>>),
}

impl View for Reply {
    type V = ReplyView;

    open spec fn view(&self) -> ReplyView {
        match self {
            Reply::Nothing => ReplyView::Nothing,
            Reply::Peer(text) => ReplyView::Peer(text@),
            Reply::Client(status) => ReplyView::Client(status_view(*status)),
        }
    }
}

/// What handling a message came to: the status for the sender, and the
/// effects that the node asks for, in the order in which they are due.
#[derive(Debug)]
pub struct Handled {
    pub status: Option<String>,
    pub effects: Vec<Effect>,
}

/// What an event came to: the reply, which is due first, and the effects
/// that the node asks for, in the order in which they are due.
#[derive(Debug)]
pub struct Outcome {
    pub reply: Reply,
    pub effects: Vec<Effect>,
}

/// The status of a transaction that was new to the node.
pub const TRANSACTION_PROCESSED: &'static str = "Transaction processed";

/// The acknowledgement of a peer's message.
pub const ACKNOWLEDGED: &'static str = "Acknowledged";

/// What a node is, mathematically.
pub struct NodeView {
    pub address: Address,
    pub peers: Seq<Address>,
    pub mempool: Seq<TxnView>,
    pub chain: Seq<BlockView>,
    pub difficulty: u8,
}

/// A step of a node: the node after it, the status or reply, and the effects.
pub struct Step<R> {
    pub after: NodeView,
    pub answer: R,
    pub effects: Seq<EffectView>,
}

/// The effect that starts the miner on the node's chain and mempool.
pub open spec fn mining_effect(node: NodeView) -> EffectView {
    EffectView::Mine {
        parent: if node.chain.len() > 0 {
            Some(node.chain.last())
        } else {
            None
        },
        txns: node.mempool,
        difficulty: node.difficulty,
    }
}

/// The effect that sends `message` to all peers of the node.
pub open spec fn broadcast_effect(node: NodeView, message: MessageView) -> EffectView {
    EffectView::Broadcast { to: node.peers, message }
}

/// The message by which the node shares its chain and its peers.
pub open spec fn state_message(node: NodeView) -> MessageView {
    MessageView::ShareState { from: node.address, peers: node.peers, state: node.chain }
}

/// The node after it took `chain` for its own: the transactions of the new
/// last block are gone from the mempool.
pub open spec fn state_updated(node: NodeView, chain: Seq<BlockView>) -> NodeView {
    NodeView {
        chain,
        mempool: if chain.len() > 0 {
            without(node.mempool, chain.last().body.txn_data)
        } else {
            node.mempool
        },
        ..node
    }
}

/// What a node asks for once it has taken a new chain: that the chain be
/// shared with all peers, then that the miner start again.
pub open spec fn update_effects(after: NodeView) -> Seq<EffectView> {
    seq![broadcast_effect(after, state_message(after)), mining_effect(after)]
}

/// Whether a node on the chain `current` takes the longer chain `offered`:
/// the last block offered is committed to its transactions, has the next
/// index after the node's last block, and names it as its parent.
pub open spec fn adoptable(current: Seq<BlockView>, offered: Seq<BlockView>) -> bool {
    &&& offered.len() > current.len()
    &&& current.len() > 0
    &&& merkle_root(offered.last().body.txn_data) == Some(offered.last().header.merkle_root)
    &&& offered.last().header.index == current.last().header.index + 1
    &&& offered.last().header.previous_hash == current.last().header.current_hash
}

/// The peers of a node at `address` after it learned of `from` and `more`.
pub open spec fn peers_learned(
    peers: Seq<Address>,
    address: Address,
    from: Address,
    more: Seq<Address>,
) -> Seq<Address> {
    without(merged(inserted(peers, from), more), seq![address])
}

/// What a node does on a message.
pub open spec fn handled(node: NodeView, message: MessageView) -> Step<Option<Seq<char>>> {
    match message {
        MessageView::GetState { receiver } => {
            let after = NodeView { peers: inserted(node.peers, receiver), ..node };
            Step {
                after,
                answer: None,
                effects: seq![EffectView::Send { to: receiver, message: state_message(after) }],
            }
        },
        MessageView::ShareState { from, peers, state } => {
            let met = NodeView {
                peers: peers_learned(node.peers, node.address, from, peers),
                ..node
            };
            if adoptable(node.chain, state) {
                let after = state_updated(met, state);
                Step { after, answer: None, effects: update_effects(after) }
            } else {
                Step { after: met, answer: None, effects: Seq::empty() }
            }
        },
        MessageView::Txn { txn } => {
            if node.mempool.contains(txn) {
                Step { after: node, answer: None, effects: Seq::empty() }
            } else {
                Step {
                    after: NodeView { mempool: node.mempool.push(txn), ..node },
                    answer: Some(TRANSACTION_PROCESSED@),
                    effects: seq![broadcast_effect(node, message)],
                }
            }
        },
    }
}

/// What a node does on an event.
pub open spec fn stepped(node: NodeView, event: EventView) -> Step<ReplyView> {
    match event {
        EventView::Start => Step {
            after: node,
            answer: ReplyView::Nothing,
            effects: seq![
                mining_effect(node),
                broadcast_effect(node, MessageView::GetState { receiver: node.address }),
            ],
        },
        EventView::Mined(block) => {
            if extends(node.chain, block) {
                let after = state_updated(node, node.chain.push(block));
                Step { after, answer: ReplyView::Nothing, effects: update_effects(after) }
            } else {
                Step { after: node, answer: ReplyView::Nothing, effects: Seq::empty() }
            }
        },
        EventView::Client(txn) => {
            let step = handled(node, MessageView::Txn { txn });
            Step {
                after: step.after,
                answer: ReplyView::Client(step.answer),
                effects: step.effects,
            }
        },
        EventView::Peer(message) => {
            let step = handled(node, message);
            Step {
                after: step.after,
                answer: ReplyView::Peer(ACKNOWLEDGED@),
                effects: step.effects,
            }
        },
    }
}

/// How a node comes to be: alone, or from what the boot node `seed`
/// answered to its request, which must be the boot node's state.
pub open spec fn node_created(
    address: Address,
    seed: Option<Address>,
    answer: Option<MessageView>,
    difficulty: u8,
) -> Result<NodeView, Address> {
    match seed {
        None => Ok(
            NodeView {
                address,
                peers: Seq::empty(),
                mempool: Seq::empty(),
                chain: Seq::empty(),
                difficulty,
            },
        ),
        Some(boot) => match answer {
            Some(MessageView::ShareState { from, peers, state }) => Ok(
                NodeView {
                    address,
                    peers: peers_learned(inserted(Seq::empty(), boot), address, from, peers),
                    mempool: Seq::empty(),
                    chain: state,
                    difficulty,
                },
            ),
            _ => Err(boot),
        },
    }
}

/// Whether an event brings a node nothing but linked chains: a mined block
/// that extends the node's chain is a genesis block where the chain is
/// empty, and has the next index where it is not; a chain that a peer shares
/// is linked.
pub open spec fn brings_linked(node: NodeView, event: EventView) -> bool {
    match event {
        EventView::Mined(block) => extends(node.chain, block) ==> if node.chain.len() == 0 {
            block.header.index == 0 && block.header.previous_hash == GENESIS_PREVIOUS_HASH@
        } else {
            block.header.index == node.chain.last().header.index + 1
        },
        EventView::Peer(MessageView::ShareState { state, .. }) => linked(state),
        _ => true,
    }
}

/// Whether every block that an event brings satisfies `good`.
pub open spec fn brings_only(event: EventView, good: spec_fn(BlockView) -> bool) -> bool {
    match event {
        EventView::Mined(block) => good(block),
        EventView::Peer(MessageView::ShareState { state, .. }) => forall|i: int|
            0 <= i < state.len() ==> good(#[trigger] state[i]),
        _ => true,
    }
}

/// The chain of a node after a step is the chain before it, that chain with
/// the mined block at its end, or the chain that a peer shared.
pub proof fn lemma_chain_after_step(node: NodeView, event: EventView)
    ensures
        ({
            let chain = stepped(node, event).after.chain;
            ||| chain == node.chain
            ||| event matches EventView::Mined(block) && extends(node.chain, block) && chain
                == node.chain.push(block)
            ||| event matches EventView::Peer(MessageView::ShareState { state, .. }) && adoptable(
                node.chain,
                state,
            ) && chain == state
        }),
{
}

/// The chain of an honest node stays linked: each block names the
/// `current_hash` of the block before it, and the indices count up from 0, as
/// long as the miner hands in blocks with the right index and peers share
/// linked chains.
pub proof fn lemma_step_keeps_linked(node: NodeView, event: EventView)
    requires
        linked(node.chain),
        brings_linked(node, event),
    ensures
        linked(stepped(node, event).after.chain),
{
    lemma_chain_after_step(node, event);
    if let EventView::Mined(block) = event {
        if extends(node.chain, block) {
            let longer = node.chain.push(block);
            assert forall|i: int| 0 < i < longer.len() implies {
                &&& (#[trigger] longer[i]).header.previous_hash == longer[i - 1].header.current_hash
                &&& longer[i].header.index == longer[i - 1].header.index + 1
            } by {
                if i < node.chain.len() {
                    assert(longer[i] == node.chain[i]);
                }
            }
        }
    }
}

/// In the chain of an honest node every block is committed to its
/// transactions: the Merkle root in its header is theirs, as long as the
/// blocks that the miner hands in and that peers share are.
pub proof fn lemma_step_keeps_committed(node: NodeView, event: EventView)
    requires
        forall|i: int| 0 <= i < node.chain.len() ==> committed(#[trigger] node.chain[i]),
        brings_only(event, |b: BlockView| committed(b)),
    ensures
        forall|i: int|
            0 <= i < stepped(node, event).after.chain.len() ==> committed(
                #[trigger] stepped(node, event).after.chain[i],
            ),
{
    lemma_chain_after_step(node, event);
    let chain = stepped(node, event).after.chain;
    assert forall|i: int| 0 <= i < chain.len() implies committed(#[trigger] chain[i]) by {
        if let EventView::Mined(block) = event {
            if i < node.chain.len() {
                assert(chain[i] == node.chain[i]);
            }
        }
    }
}

/// In the chain of an honest node every block carries its proof of work:
/// its hash starts with at least as many zero bits as its difficulty asks
/// for, as long as the blocks that the miner hands in and that peers share
/// do.
pub proof fn lemma_step_keeps_proven(node: NodeView, event: EventView)
    requires
        forall|i: int| 0 <= i < node.chain.len() ==> proven(#[trigger] node.chain[i]),
        brings_only(event, |b: BlockView| proven(b)),
    ensures
        forall|i: int|
            0 <= i < stepped(node, event).after.chain.len() ==> proven(
                #[trigger] stepped(node, event).after.chain[i],
            ),
{
    lemma_chain_after_step(node, event);
    let chain = stepped(node, event).after.chain;
    assert forall|i: int| 0 <= i < chain.len() implies proven(#[trigger] chain[i]) by {
        if let EventView::Mined(block) = event {
            if i < node.chain.len() {
                assert(chain[i] == node.chain[i]);
            }
        }
    }
}

/// A block that the miner made on the last block of a node's chain is taken:
/// the chain grows by it, and a valid chain stays valid.
pub proof fn lemma_mined_block_taken(node: NodeView, txns: Seq<TxnView>, block: BlockView)
    requires
        node.chain.len() > 0,
        mined_on(node.chain.last(), txns, node.difficulty, block),
    ensures
        stepped(node, EventView::Mined(block)).after.chain == node.chain.push(block),
        valid_chain(node.chain) ==> valid_chain(stepped(node, EventView::Mined(block)).after.chain),
{
    if valid_chain(node.chain) {
        lemma_valid_chain_grows(node.chain, block);
    }
}

/// A genesis block that the miner made is taken by a node whose chain is
/// empty, and is a valid chain by itself.
pub proof fn lemma_mined_genesis_taken(node: NodeView, block: BlockView)
    requires
        node.chain.len() == 0,
        mined_genesis(node.difficulty, block),
    ensures
        stepped(node, EventView::Mined(block)).after.chain == seq![block],
        valid_chain(stepped(node, EventView::Mined(block)).after.chain),
{
    lemma_valid_chain_starts(block);
    assert(node.chain.push(block) =~= seq![block]);
    assert(Seq::<BlockView>::empty().push(block) =~= seq![block]);
}

/// Once a node has taken a chain, none of the transactions in the chain's
/// last block is pending any more.
pub proof fn lemma_update_evicts(node: NodeView, chain: Seq<BlockView>, txn: TxnView)
    requires
        chain.len() > 0,
        chain.last().body.txn_data.contains(txn),
    ensures
        !state_updated(node, chain).mempool.contains(txn),
{
    let gone = chain.last().body.txn_data;
    let left = without(node.mempool, gone);
    if left.contains(txn) {
        let i = choose|i: int| 0 <= i < left.len() && left[i] == txn;
        node.mempool.lemma_filter_pred(|a: TxnView| !gone.contains(a), i);
    }
}

/// A node that holds the chain `ours` and is sent the longer chain `theirs`,
/// whose last block is committed to its transactions, has the next index
/// after the last block of `ours` and names it as its parent, holds exactly
/// `theirs` afterwards.
pub proof fn lemma_longer_chain_adopted(
    node: NodeView,
    from: Address,
    peers: Seq<Address>,
    theirs: Seq<BlockView>,
)
    requires
        node.chain.len() > 0,
        theirs.len() > node.chain.len(),
        merkle_root(theirs.last().body.txn_data) == Some(theirs.last().header.merkle_root),
        theirs.last().header.index == node.chain.last().header.index + 1,
        theirs.last().header.previous_hash == node.chain.last().header.current_hash,
    ensures
        handled(node, MessageView::ShareState { from, peers, state: theirs }).after.chain
            == theirs,
{
}

/// A node that is sent a chain which is no longer than its own, or whose
/// last block does not name the node's last block as its parent, keeps its
/// chain.
pub proof fn lemma_other_chain_ignored(
    node: NodeView,
    from: Address,
    peers: Seq<Address>,
    theirs: Seq<BlockView>,
)
    requires
        theirs.len() <= node.chain.len() || node.chain.len() == 0
            || theirs.last().header.previous_hash != node.chain.last().header.current_hash,
    ensures
        handled(node, MessageView::ShareState { from, peers, state: theirs }).after.chain
            == node.chain,
        handled(node, MessageView::ShareState { from, peers, state: theirs }).effects
            == Seq::<EffectView>::empty(),
{
}

/// A node passes a transaction on at most once while it is pending: on the
/// message that brings a pending transaction the node asks for nothing,
/// answers no status and stays as it is.
pub proof fn lemma_pending_txn_not_passed_on(node: NodeView, txn: TxnView)
    requires
        node.mempool.contains(txn),
    ensures
        handled(node, MessageView::Txn { txn }) == (Step {
            after: node,
            answer: None::<Seq<char>>,
            effects: Seq::<EffectView>::empty(),
        }),
{
}

/// After a node has handled a transaction, the transaction is pending; so
/// the same transaction, sent again, is not passed on again.
pub proof fn lemma_txn_passed_on_once(node: NodeView, txn: TxnView)
    ensures
        handled(node, MessageView::Txn { txn }).after.mempool.contains(txn),
        handled(handled(node, MessageView::Txn { txn }).after, MessageView::Txn { txn }).effects
            == Seq::<EffectView>::empty(),
        handled(handled(node, MessageView::Txn { txn }).after, MessageView::Txn { txn }).after
            == handled(node, MessageView::Txn { txn }).after,
{
    let after = handled(node, MessageView::Txn { txn }).after;
    if !node.mempool.contains(txn) {
        assert(after.mempool[node.mempool.len() as int] == txn);
    }
    lemma_pending_txn_not_passed_on(after, txn);
}

/// A node: its address, the peers that it knows, the pending transactions,
/// its chain, and the difficulty at which it mines.
#[derive(Debug)]
pub struct Node {
    address: Address,
    peers: Peers,
    mempool: Mempool,
    state: BlockChain,
    difficulty: u8,
}

impl View for Node {
    type V = NodeView;

    closed spec fn view(&self) -> NodeView {
        NodeView {
            address: self.address,
            peers: self.peers@,
            mempool: self.mempool@,
            chain: self.state@,
            difficulty: self.difficulty,
        }
    }
}

impl Node {
    /// A node at `address`. Without a boot node it starts alone, on the
    /// empty chain. With the boot node `seed` it starts from `answer`, what
    /// the boot node sent back on the request for its state: it takes the
    /// chain, and for peers the boot node and those that the answer names.
    /// Any other answer, or none, is an error.
    pub fn new(
        address: Address,
        seed: Option<Address>,
        answer: Option<Message>,
        difficulty: u8,
    ) -> (out: Result<Node, NetworkError>)
        ensures
            match out {
                Ok(node) => node_created(address, seed, answer_view(answer), difficulty) == Ok::<
                    NodeView,
                    Address,
                >(node@),
                Err(e) => {
                    &&& node_created(address, seed, answer_view(answer), difficulty) is Err
                    &&& seed is Some
                    &&& e == NetworkError::BootNodeReceiveError(seed->0)
                },
            },
    {
        match seed {
            None => Ok(
                Node {
                    address,
                    peers: Peers::new(),
                    mempool: Mempool::new(),
                    state: BlockChain::new(),
                    difficulty,
                },
            ),
            Some(boot) => match answer {
                Some(Message::ShareState { from, peers, state }) => {
                    let mut known = Peers::new();
                    known.insert(boot);
                    known.insert(from);
                    known.extend(&peers);
                    known.remove(address);
                    Ok(Node { address, peers: known, mempool: Mempool::new(), state, difficulty })
                },
                _ => Err(NetworkError::BootNodeReceiveError(boot)),
            },
        }
    }

    /// The node's own address.
    pub fn address(&self) -> (address: Address)
        ensures
            address == self@.address,
    {
        self.address
    }

    /// The difficulty at which the node mines.
    pub fn difficulty(&self) -> (difficulty: u8)
        ensures
            difficulty == self@.difficulty,
    {
        self.difficulty
    }

    /// The peers that the node knows.
    pub fn peers(&self) -> (peers: &Peers)
        ensures
            peers@ == self@.peers,
    {
        &self.peers
    }

    /// The pending transactions.
    pub fn mempool(&self) -> (mempool: &Mempool)
        ensures
            mempool@ == self@.mempool,
    {
        &self.mempool
    }

    /// The node's chain.
    pub fn state(&self) -> (state: &BlockChain)
        ensures
            state@ == self@.chain,
    {
        &self.state
    }

    /// The effect that starts the miner: on the last block with the pending
    /// transactions, or on nothing where the chain is empty.
    pub fn run_miner(&self) -> (effect: Effect)
        ensures
            effect@ == mining_effect(self@),
    {
        let count = self.state.blocks.len();
        let parent = if count > 0 {
            Some(self.state.blocks[count - 1].clone())
        } else {
            None
        };
        Effect::Mine { parent, txns: self.mempool.snapshot(), difficulty: self.difficulty }
    }

    /// The effect that sends `message` to all peers.
    pub fn broadcast(&self, message: Message) -> (effect: Effect)
        ensures
            effect@ == broadcast_effect(self@, message@),
    {
        Effect::Broadcast { to: self.peers.to_vec(), message }
    }

    /// The message by which the node shares its chain and its peers.
    pub fn share_state(&self) -> (message: Message)
        ensures
            message@ == state_message(self@),
    {
        Message::ShareState {
            from: self.address,
            peers: self.peers.to_vec(),
            state: self.state.clone(),
        }
    }

    /// Takes `new_state` for the node's chain, drops from the mempool what
    /// the new last block holds, and asks that the chain be shared with all
    /// peers and that the miner start again on it.
    pub fn update_state(&mut self, new_state: BlockChain) -> (effects: Vec<Effect>)
        ensures
            final(self)@ == state_updated(old(self)@, new_state@),
            effect_views(effects@) == update_effects(final(self)@),
            new_state@.len() > 0 ==> forall|t: TxnView|
                new_state@.last().body.txn_data.contains(t) ==> !final(self)@.mempool.contains(t),
    {
        self.state = new_state;
        let count = self.state.blocks.len();
        if count > 0 {
            self.mempool.retain_not_in(&self.state.blocks[count - 1]);
        }
        let mut effects: Vec<Effect> = Vec::new();
        let share = self.share_state();
        effects.push(self.broadcast(share));
        effects.push(self.run_miner());
        assert(effect_views(effects@) =~= update_effects(self@));
        effects
    }

    /// Tells whether the node takes the chain `offered` in place of its own.
    pub fn accepts(&self, offered: &BlockChain) -> (accepted: bool)
        ensures
            accepted == adoptable(self@.chain, offered@),
    {
        let own = self.state.blocks.len();
        let count = offered.blocks.len();
        if count <= own || own == 0 {
            return false;
        }
        let new_tip = &offered.blocks[count - 1];
        let tip = &self.state.blocks[own - 1];
        let committed = match MerkleRoot::from(&new_tip.body.txn_data) {
            Ok(root) => root == new_tip.header.merkle_root,
            Err(_) => false,
        };
        committed && new_tip.header.index as u64 == tip.header.index as u64 + 1
            && new_tip.header.previous_hash == tip.header.current_hash
    }

    /// Handles a message from a peer or, for a transaction, from a client.
    pub fn handle_message(&mut self, message: Message) -> (out: Handled)
        ensures
            handled(old(self)@, message@) == (Step {
                after: final(self)@,
                answer: status_view(out.status),
                effects: effect_views(out.effects@),
            }),
    {
        let mut effects: Vec<Effect> = Vec::new();
        match message {
            Message::GetState { receiver } => {
                self.peers.insert(receiver);
                let share = self.share_state();
                effects.push(Effect::Send { to: receiver, message: share });
                assert(effect_views(effects@) =~= handled(old(self)@, message@).effects);
                Handled { status: None, effects }
            },
            Message::ShareState { from, peers, state } => {
                self.peers.insert(from);
                self.peers.extend(&peers);
                self.peers.remove(self.address);
                if self.accepts(&state) {
                    let effects = self.update_state(state);
                    Handled { status: None, effects }
                } else {
                    assert(effect_views(effects@) =~= Seq::<EffectView>::empty());
                    Handled { status: None, effects }
                }
            },
            Message::Txn { id, sender, receiver, amount } => {
                let txn = Txn::with_id(id, sender, receiver, amount);
                let copy = txn.clone();
                if self.mempool.insert(txn) {
                    effects.push(self.broadcast(Message::from_txn(copy)));
                    assert(effect_views(effects@) =~= handled(old(self)@, message@).effects);
                    Handled { status: Some(String::from_str(TRANSACTION_PROCESSED)), effects }
                } else {
                    assert(effect_views(effects@) =~= Seq::<EffectView>::empty());
                    Handled { status: None, effects }
                }
            },
        }
    }

    /// Handles one event to its end.
    pub fn run(&mut self, event: Event) -> (out: Outcome)
        ensures
            stepped(old(self)@, event@) == (Step {
                after: final(self)@,
                answer: out.reply@,
                effects: effect_views(out.effects@),
            }),
    {
        match event {
            Event::Start => {
                let mut effects: Vec<Effect> = Vec::new();
                effects.push(self.run_miner());
                effects.push(self.broadcast(Message::GetState { receiver: self.address }));
                assert(effect_views(effects@) =~= stepped(old(self)@, event@).effects);
                Outcome { reply: Reply::Nothing, effects }
            },
            Event::Mined(block) => {
                match self.state.add_block(block) {
                    Ok(new_state) => {
                        let effects = self.update_state(new_state);
                        Outcome { reply: Reply::Nothing, effects }
                    },
                    Err(_) => {
                        let effects: Vec<Effect> = Vec::new();
                        assert(effect_views(effects@) =~= Seq::<EffectView>::empty());
                        Outcome { reply: Reply::Nothing, effects }
                    },
                }
            },
            Event::Client(txn) => {
                let handled = self.handle_message(Message::from_txn(txn));
                Outcome { reply: Reply::Client(handled.status), effects: handled.effects }
            },
            Event::Peer(message) => {
                let handled = self.handle_message(message);
                Outcome {
                    reply: Reply::Peer(String::from_str(ACKNOWLEDGED)),
                    effects: handled.effects,
                }
            },
        }
    }
}

} // verus!
