use blockchain::block::Block;
use blockchain::blockchain::BlockChain;
use blockchain::error::NetworkError;
use blockchain::miner::Mine;
use blockchain::node::Effect;
use blockchain::node::Event;
use blockchain::node::Message;
use blockchain::node::Node;
use blockchain::node::Reply;
use blockchain::node::ACKNOWLEDGED;
use blockchain::node::TRANSACTION_PROCESSED;
use blockchain::peers::Address;
use blockchain::transaction::Txn;

fn node_addr(port: u16) -> Address {
    Address::V4 { ip: 0x7f000001, port }
}

fn node_txn(id: &str) -> Txn {
    Txn::with_id(id.to_string(), "A".to_string(), "B".to_string(), 7)
}

fn node_genesis() -> Block {
    Mine::mine_genesis_with(2, 1700000000, 0, 1).unwrap()
}

fn node_next(parent: &Block, txns: Vec<Txn>, noise: u32) -> Block {
    Mine::mine_with(txns, parent, 2, 1700000100, 0, noise).unwrap()
}

fn node_chain(blocks: Vec<Block>) -> BlockChain {
    BlockChain { blocks }
}

fn node_alone() -> Node {
    Node::new(node_addr(1), None, None, 2).unwrap()
}

fn node_at_height_one() -> (Node, Block) {
    let mut node = node_alone();
    let genesis = node_genesis();
    node.run(Event::Mined(genesis.clone()));
    (node, genesis)
}

fn node_hashes(chain: &BlockChain) -> Vec<String> {
    chain.blocks.iter().map(|b| b.header.current_hash.clone()).collect()
}

#[test]
fn node_without_boot_node_starts_alone() {
    let node = node_alone();
    assert_eq!(node.address(), node_addr(1));
    assert_eq!(node.difficulty(), 2);
    assert_eq!(node.peers().len(), 0);
    assert_eq!(node.mempool().len(), 0);
    assert!(node.state().blocks.is_empty());
}

#[test]
fn node_without_boot_node_ignores_an_answer() {
    let answer = Message::ShareState {
        from: node_addr(2),
        peers: vec![node_addr(3)],
        state: node_chain(vec![node_genesis()]),
    };
    let node = Node::new(node_addr(1), None, Some(answer), 2).unwrap();
    assert_eq!(node.peers().len(), 0);
    assert!(node.state().blocks.is_empty());
}

#[test]
fn node_takes_the_state_of_its_boot_node() {
    let genesis = node_genesis();
    let answer = Message::ShareState {
        from: node_addr(2),
        peers: vec![node_addr(3), node_addr(1), node_addr(3)],
        state: node_chain(vec![genesis.clone()]),
    };
    let node = Node::new(node_addr(1), Some(node_addr(2)), Some(answer), 2).unwrap();
    assert_eq!(node.address(), node_addr(1));
    assert_eq!(node.peers().to_vec(), vec![node_addr(2), node_addr(3)]);
    assert_eq!(node.mempool().len(), 0);
    assert_eq!(node_hashes(node.state()), vec![genesis.header.current_hash]);
}

#[test]
fn node_records_the_boot_node_and_the_one_that_answered() {
    let answer =
        Message::ShareState { from: node_addr(9), peers: vec![], state: BlockChain::new() };
    let node = Node::new(node_addr(1), Some(node_addr(2)), Some(answer), 2).unwrap();
    assert_eq!(node.peers().to_vec(), vec![node_addr(2), node_addr(9)]);
}

#[test]
fn node_fails_without_an_answer_of_the_boot_node() {
    let out = Node::new(node_addr(1), Some(node_addr(2)), None, 2);
    assert_eq!(out.err(), Some(NetworkError::BootNodeReceiveError(node_addr(2))));
}

#[test]
fn node_fails_on_another_answer_of_the_boot_node() {
    let out = Node::new(
        node_addr(1),
        Some(node_addr(2)),
        Some(Message::GetState { receiver: node_addr(2) }),
        2,
    );
    assert_eq!(out.err(), Some(NetworkError::BootNodeReceiveError(node_addr(2))));
    let out = Node::new(
        node_addr(1),
        Some(node_addr(2)),
        Some(Message::from_txn(node_txn("a"))),
        2,
    );
    assert_eq!(out.err(), Some(NetworkError::BootNodeReceiveError(node_addr(2))));
}

#[test]
fn start_asks_for_a_genesis_miner_and_for_the_state_of_the_peers() {
    let answer =
        Message::ShareState { from: node_addr(2), peers: vec![], state: BlockChain::new() };
    let mut node = Node::new(node_addr(1), Some(node_addr(2)), Some(answer), 2).unwrap();
    let out = node.run(Event::Start);
    assert!(matches!(out.reply, Reply::Nothing));
    assert_eq!(out.effects.len(), 2);
    match &out.effects[0] {
        Effect::Mine { parent, txns, difficulty } => {
            assert!(parent.is_none());
            assert!(txns.is_empty());
            assert_eq!(*difficulty, 2);
        },
        other => panic!("{:?}", other),
    }
    match &out.effects[1] {
        Effect::Broadcast { to, message } => {
            assert_eq!(to, &vec![node_addr(2)]);
            assert!(matches!(message, Message::GetState { receiver } if *receiver == node_addr(1)));
        },
        other => panic!("{:?}", other),
    }
}

#[test]
fn start_on_a_chain_asks_for_a_miner_on_its_last_block() {
    let genesis = node_genesis();
    let answer = Message::ShareState {
        from: node_addr(2),
        peers: vec![],
        state: node_chain(vec![genesis.clone()]),
    };
    let mut node = Node::new(node_addr(1), Some(node_addr(2)), Some(answer), 2).unwrap();
    let out = node.run(Event::Start);
    match &out.effects[0] {
        Effect::Mine { parent, .. } => {
            assert_eq!(
                parent.as_ref().unwrap().header.current_hash,
                genesis.header.current_hash
            );
        },
        other => panic!("{:?}", other),
    }
}

#[test]
fn mined_genesis_block_is_taken_and_shared() {
    let mut node = node_alone();
    node.handle_message(Message::GetState { receiver: node_addr(5) });
    let genesis = node_genesis();
    let out = node.run(Event::Mined(genesis.clone()));
    assert!(matches!(out.reply, Reply::Nothing));
    assert_eq!(node_hashes(node.state()), vec![genesis.header.current_hash.clone()]);
    assert_eq!(out.effects.len(), 2);
    match &out.effects[0] {
        Effect::Broadcast { to, message } => {
            assert_eq!(to, &vec![node_addr(5)]);
            match message {
                Message::ShareState { from, peers, state } => {
                    assert_eq!(*from, node_addr(1));
                    assert_eq!(peers, &vec![node_addr(5)]);
                    assert_eq!(node_hashes(state), node_hashes(node.state()));
                },
                other => panic!("{:?}", other),
            }
        },
        other => panic!("{:?}", other),
    }
    match &out.effects[1] {
        Effect::Mine { parent, txns, difficulty } => {
            assert_eq!(
                parent.as_ref().unwrap().header.current_hash,
                genesis.header.current_hash
            );
            assert!(txns.is_empty());
            assert_eq!(*difficulty, 2);
        },
        other => panic!("{:?}", other),
    }
}

#[test]
fn stale_mined_block_is_dropped() {
    let (mut node, genesis) = node_at_height_one();
    let first = node_next(&genesis, vec![], 1);
    let second = node_next(&genesis, vec![node_txn("a")], 2);
    assert_eq!(node.run(Event::Mined(first.clone())).effects.len(), 2);
    let out = node.run(Event::Mined(second));
    assert!(out.effects.is_empty());
    assert!(matches!(out.reply, Reply::Nothing));
    assert_eq!(
        node_hashes(node.state()),
        vec![genesis.header.current_hash, first.header.current_hash]
    );
}

#[test]
fn client_transaction_is_confirmed_by_the_next_block() {
    let mut node = node_alone();
    let txn = node_txn("a");
    let out = node.run(Event::Client(txn.clone()));
    match &out.reply {
        Reply::Client(Some(status)) => assert_eq!(status, "Transaction processed"),
        other => panic!("{:?}", other),
    }
    assert_eq!(node.mempool().snapshot(), vec![txn.clone()]);
    let genesis = node_genesis();
    let out = node.run(Event::Mined(genesis.clone()));
    let (parent, txns) = match &out.effects[1] {
        Effect::Mine { parent, txns, .. } => (parent.clone().unwrap(), txns.clone()),
        other => panic!("{:?}", other),
    };
    assert_eq!(txns, vec![txn.clone()]);
    let block = node_next(&parent, txns, 3);
    assert_eq!(block.header.previous_hash, genesis.header.current_hash);
    assert_eq!(block.header.index, 1);
    assert_eq!(block.body.txn_data, vec![txn.clone()]);
    let out = node.run(Event::Mined(block.clone()));
    assert_eq!(node.state().blocks.len(), 2);
    assert_eq!(node.state().tip(), block.header.current_hash);
    assert_eq!(node.mempool().len(), 0);
    match &out.effects[1] {
        Effect::Mine { parent, txns, .. } => {
            assert_eq!(parent.as_ref().unwrap().header.current_hash, block.header.current_hash);
            assert!(txns.is_empty());
        },
        other => panic!("{:?}", other),
    }
}

#[test]
fn new_transaction_is_passed_on_to_all_peers() {
    let mut node = node_alone();
    node.handle_message(Message::GetState { receiver: node_addr(5) });
    node.handle_message(Message::GetState { receiver: node_addr(6) });
    let out = node.handle_message(Message::from_txn(node_txn("a")));
    assert_eq!(out.status.as_deref(), Some(TRANSACTION_PROCESSED));
    assert_eq!(out.effects.len(), 1);
    match &out.effects[0] {
        Effect::Broadcast { to, message } => {
            assert_eq!(to, &vec![node_addr(5), node_addr(6)]);
            assert_eq!(message.clone().into_txn(), Some(node_txn("a")));
        },
        other => panic!("{:?}", other),
    }
}

#[test]
fn pending_transaction_is_not_passed_on_again() {
    let mut node = node_alone();
    node.handle_message(Message::GetState { receiver: node_addr(5) });
    node.run(Event::Client(node_txn("a")));
    let before = node.mempool().snapshot();
    let out = node.run(Event::Client(node_txn("a")));
    assert!(matches!(out.reply, Reply::Client(None)));
    assert!(out.effects.is_empty());
    assert_eq!(node.mempool().snapshot(), before);
    let out = node.run(Event::Peer(Message::from_txn(node_txn("a"))));
    assert!(out.effects.is_empty());
    let out = node.handle_message(Message::from_txn(node_txn("a")));
    assert!(out.status.is_none());
    assert!(out.effects.is_empty());
}

#[test]
fn peer_message_is_acknowledged_whatever_it_leads_to() {
    let mut node = node_alone();
    let out = node.run(Event::Peer(Message::from_txn(node_txn("a"))));
    match &out.reply {
        Reply::Peer(text) => assert_eq!(text, ACKNOWLEDGED),
        other => panic!("{:?}", other),
    }
    assert_eq!(ACKNOWLEDGED, "Acknowledged");
    let out = node.run(Event::Peer(Message::ShareState {
        from: node_addr(2),
        peers: vec![],
        state: BlockChain::new(),
    }));
    assert!(matches!(&out.reply, Reply::Peer(text) if text == "Acknowledged"));
}

#[test]
fn request_for_the_state_is_answered_to_the_one_who_asks() {
    let (mut node, genesis) = node_at_height_one();
    let out = node.handle_message(Message::GetState { receiver: node_addr(7) });
    assert!(out.status.is_none());
    assert_eq!(node.peers().to_vec(), vec![node_addr(7)]);
    assert_eq!(out.effects.len(), 1);
    match &out.effects[0] {
        Effect::Send { to, message } => {
            assert_eq!(*to, node_addr(7));
            match message {
                Message::ShareState { from, peers, state } => {
                    assert_eq!(*from, node_addr(1));
                    assert_eq!(peers, &vec![node_addr(7)]);
                    assert_eq!(node_hashes(state), vec![genesis.header.current_hash.clone()]);
                },
                other => panic!("{:?}", other),
            }
        },
        other => panic!("{:?}", other),
    }
}

#[test]
fn longer_chain_with_a_fitting_last_block_is_adopted() {
    let (mut node, genesis) = node_at_height_one();
    node.run(Event::Client(node_txn("a")));
    node.run(Event::Client(node_txn("b")));
    let next = node_next(&genesis, vec![node_txn("a"), node_txn("z")], 4);
    let theirs = node_chain(vec![genesis.clone(), next.clone()]);
    let out = node.run(Event::Peer(Message::ShareState {
        from: node_addr(2),
        peers: vec![node_addr(3), node_addr(1)],
        state: theirs.clone(),
    }));
    assert_eq!(node_hashes(node.state()), node_hashes(&theirs));
    assert_eq!(node.state().blocks[1].body.txn_data, next.body.txn_data);
    assert_eq!(node.mempool().snapshot(), vec![node_txn("b")]);
    assert_eq!(node.peers().to_vec(), vec![node_addr(2), node_addr(3)]);
    assert_eq!(out.effects.len(), 2);
    match &out.effects[0] {
        Effect::Broadcast { to, message } => {
            assert_eq!(to, &vec![node_addr(2), node_addr(3)]);
            assert!(matches!(message, Message::ShareState { state, .. }
                if node_hashes(state) == node_hashes(&theirs)));
        },
        other => panic!("{:?}", other),
    }
    match &out.effects[1] {
        Effect::Mine { parent, txns, .. } => {
            assert_eq!(parent.as_ref().unwrap().header.current_hash, next.header.current_hash);
            assert_eq!(txns, &vec![node_txn("b")]);
        },
        other => panic!("{:?}", other),
    }
}

#[test]
fn chain_whose_last_block_names_another_parent_is_ignored() {
    let (mut node, genesis) = node_at_height_one();
    let other_genesis = Mine::mine_genesis_with(2, 1700000001, 0, 9).unwrap();
    let next = node_next(&other_genesis, vec![], 4);
    let out = node.handle_message(Message::ShareState {
        from: node_addr(2),
        peers: vec![node_addr(3)],
        state: node_chain(vec![other_genesis, next]),
    });
    assert!(out.effects.is_empty());
    assert!(out.status.is_none());
    assert_eq!(node_hashes(node.state()), vec![genesis.header.current_hash]);
    assert_eq!(node.peers().to_vec(), vec![node_addr(2), node_addr(3)]);
}

#[test]
fn chain_whose_last_block_has_a_wrong_merkle_root_is_ignored() {
    let (mut node, genesis) = node_at_height_one();
    let mut next = node_next(&genesis, vec![node_txn("a")], 4);
    next.body.txn_data.push(node_txn("b"));
    let state = node_chain(vec![genesis.clone(), next]);
    assert!(!node.accepts(&state));
    let out = node.handle_message(Message::ShareState { from: node_addr(2), peers: vec![], state });
    assert!(out.effects.is_empty());
    assert_eq!(node.state().blocks.len(), 1);
}

#[test]
fn chain_whose_last_block_has_a_wrong_index_is_ignored() {
    let (mut node, genesis) = node_at_height_one();
    let mut next = node_next(&genesis, vec![], 4);
    next.header.index = 2;
    let state = node_chain(vec![genesis.clone(), next]);
    assert!(!node.accepts(&state));
    node.handle_message(Message::ShareState { from: node_addr(2), peers: vec![], state });
    assert_eq!(node.state().blocks.len(), 1);
}

#[test]
fn chain_that_is_no_longer_is_ignored() {
    let (mut node, genesis) = node_at_height_one();
    let state = node_chain(vec![genesis.clone()]);
    assert!(!node.accepts(&state));
    let out = node.handle_message(Message::ShareState { from: node_addr(2), peers: vec![], state });
    assert!(out.effects.is_empty());
    assert!(!node.accepts(&BlockChain::new()));
}

#[test]
fn node_on_the_empty_chain_takes_no_chain_from_a_peer() {
    let mut node = node_alone();
    let state = node_chain(vec![node_genesis()]);
    assert!(!node.accepts(&state));
    let out = node.handle_message(Message::ShareState {
        from: node_addr(2),
        peers: vec![],
        state,
    });
    assert!(out.effects.is_empty());
    assert!(node.state().blocks.is_empty());
    assert_eq!(node.peers().to_vec(), vec![node_addr(2)]);
}

#[test]
fn longer_chain_is_accepted_by_its_last_block_alone() {
    let (node, genesis) = node_at_height_one();
    let next = node_next(&genesis, vec![], 4);
    let padding = Block::at("x".to_string(), vec![], 9, 2, 0);
    assert!(node.accepts(&node_chain(vec![genesis.clone(), next.clone()])));
    assert!(node.accepts(&node_chain(vec![padding, genesis.clone(), next])));
}

#[test]
fn shared_peers_never_include_the_node_itself() {
    let mut node = node_alone();
    node.handle_message(Message::ShareState {
        from: node_addr(1),
        peers: vec![node_addr(1), node_addr(4)],
        state: BlockChain::new(),
    });
    assert_eq!(node.peers().to_vec(), vec![node_addr(4)]);
}

#[test]
fn update_drops_confirmed_transactions_before_the_miner_starts() {
    let mut node = node_alone();
    node.run(Event::Client(node_txn("a")));
    node.run(Event::Client(node_txn("b")));
    let genesis = node_genesis();
    let next = node_next(&genesis, vec![node_txn("b")], 4);
    let effects = node.update_state(node_chain(vec![genesis, next.clone()]));
    assert_eq!(node.mempool().snapshot(), vec![node_txn("a")]);
    assert!(!node.mempool().contains(&node_txn("b")));
    assert_eq!(effects.len(), 2);
    assert!(matches!(&effects[0], Effect::Broadcast { .. }));
    match &effects[1] {
        Effect::Mine { parent, txns, .. } => {
            assert_eq!(parent.as_ref().unwrap().header.current_hash, next.header.current_hash);
            assert_eq!(txns, &vec![node_txn("a")]);
        },
        other => panic!("{:?}", other),
    }
}

#[test]
fn update_with_the_empty_chain_keeps_the_mempool() {
    let mut node = node_alone();
    node.run(Event::Client(node_txn("a")));
    let effects = node.update_state(BlockChain::new());
    assert_eq!(node.mempool().len(), 1);
    assert!(matches!(&effects[1], Effect::Mine { parent: None, .. }));
}

#[test]
fn effects_of_a_node_on_their_own() {
    let (mut node, genesis) = node_at_height_one();
    node.handle_message(Message::GetState { receiver: node_addr(5) });
    node.run(Event::Client(node_txn("a")));
    match node.run_miner() {
        Effect::Mine { parent, txns, difficulty } => {
            assert_eq!(parent.unwrap().header.current_hash, genesis.header.current_hash);
            assert_eq!(txns, vec![node_txn("a")]);
            assert_eq!(difficulty, 2);
        },
        other => panic!("{:?}", other),
    }
    match node.broadcast(Message::GetState { receiver: node_addr(1) }) {
        Effect::Broadcast { to, message } => {
            assert_eq!(to, vec![node_addr(5)]);
            assert!(matches!(message, Message::GetState { .. }));
        },
        other => panic!("{:?}", other),
    }
    match node.share_state() {
        Message::ShareState { from, peers, state } => {
            assert_eq!(from, node_addr(1));
            assert_eq!(peers, vec![node_addr(5)]);
            assert_eq!(state.blocks.len(), 1);
        },
        other => panic!("{:?}", other),
    }
}

#[test]
fn message_and_transaction_turn_into_each_other() {
    let message = Message::from_txn(node_txn("a"));
    assert!(matches!(&message, Message::Txn { id, sender, receiver, amount }
        if id == "a" && sender == "A" && receiver == "B" && *amount == 7));
    assert_eq!(message.into_txn(), Some(node_txn("a")));
    assert_eq!(Message::GetState { receiver: node_addr(1) }.into_txn(), None);
}

#[test]
fn chain_of_an_honest_node_hangs_together() {
    let mut node = node_alone();
    let genesis = node_genesis();
    node.run(Event::Mined(genesis.clone()));
    let one = node_next(&genesis, vec![node_txn("a")], 1);
    node.run(Event::Mined(one.clone()));
    let two = Mine::mine_with(vec![node_txn("b")], &one, 2, 1700000200, 5, 2).unwrap();
    node.run(Event::Mined(two));
    let blocks = node.state().all_blocks_in_longest_chain();
    assert_eq!(blocks.len(), 3);
    assert_eq!(blocks[0].header.index, 0);
    assert_eq!(blocks[0].header.previous_hash, "00000");
    for i in 1..blocks.len() {
        assert_eq!(blocks[i].header.previous_hash, blocks[i - 1].header.current_hash);
        assert_eq!(blocks[i].header.index, blocks[i - 1].header.index + 1);
    }
    for block in &blocks {
        assert_eq!(
            blockchain::block::MerkleRoot::from(&block.body.txn_data).unwrap(),
            block.header.merkle_root
        );
        assert!(blockchain::digest::hash_meets_target(
            &BlockChain::hash_block(block),
            block.header.difficulty
        ));
    }
}
