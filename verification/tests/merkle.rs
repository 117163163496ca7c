use blockchain::block::Block;
use blockchain::block::MerkleRoot;
use blockchain::digest::hex_digest_text;
use blockchain::json::txn_json_text;
use blockchain::transaction::Txn;

const MERKLE_EMPTY: &str = "e3b0c44298fc1c149afbf4c8996fb92427ae41e4649b934ca495991b7852b855";

fn merkle_txn(id: &str, sender: &str, receiver: &str, amount: u32) -> Txn {
    Txn::with_id(id.to_string(), sender.to_string(), receiver.to_string(), amount)
}

fn merkle_sample(count: usize) -> Vec<Txn> {
    let all = vec![
        merkle_txn("id1", "A", "B", 7),
        merkle_txn("id2", "B", "C", 9),
        merkle_txn("id3", "C", "A", 11),
        merkle_txn("id4", "D", "E", 0),
        merkle_txn("id5", "E", "F", 4294967295),
        merkle_txn("q\"1", "a\\b", "line\nbreak\t\u{1}", 5),
    ];
    all[..count].to_vec()
}

fn merkle_leaf(txn: &Txn) -> String {
    hex_digest_text(&txn_json_text(txn).unwrap())
}

fn merkle_join(left: &str, right: &str) -> String {
    hex_digest_text(&format!("{}{}", left, right))
}

#[test]
fn new_merkle_root_is_empty() {
    assert_eq!(MerkleRoot::new(), "");
}

#[test]
fn merkle_root_of_no_transaction_is_the_digest_of_the_empty_text() {
    assert_eq!(MerkleRoot::from(&vec![]).unwrap(), MERKLE_EMPTY);
    assert_eq!(MerkleRoot::of_nothing(), MERKLE_EMPTY);
}

#[test]
fn merkle_leaf_is_the_digest_of_the_json_object() {
    assert_eq!(
        merkle_leaf(&merkle_txn("id1", "A", "B", 7)),
        "997d5159bb5632491450045fec15f83e20c99c6818bb97b98cb963321770b665"
    );
}

#[test]
fn merkle_root_of_one_transaction_pairs_the_leaf_with_itself() {
    let txns = merkle_sample(1);
    let leaf = merkle_leaf(&txns[0]);
    assert_eq!(MerkleRoot::from(&txns).unwrap(), merkle_join(&leaf, &leaf));
    assert_eq!(
        MerkleRoot::from(&txns).unwrap(),
        "768b8913c5a179d9aede86fe63743c73a01d4dcfe6392d2e7a9285907c2ef9d3"
    );
}

#[test]
fn merkle_root_of_two_transactions() {
    let txns = merkle_sample(2);
    assert_eq!(
        MerkleRoot::from(&txns).unwrap(),
        merkle_join(&merkle_leaf(&txns[0]), &merkle_leaf(&txns[1]))
    );
    assert_eq!(
        MerkleRoot::from(&txns).unwrap(),
        "59d5ceed09396bd91892d62da8449ff04a6a0dd3aaafda761f39abb6151e09e4"
    );
}

#[test]
fn merkle_root_of_three_transactions_doubles_the_last_leaf() {
    let txns = merkle_sample(3);
    let left = merkle_join(&merkle_leaf(&txns[0]), &merkle_leaf(&txns[1]));
    let right = merkle_join(&merkle_leaf(&txns[2]), &merkle_leaf(&txns[2]));
    assert_eq!(MerkleRoot::from(&txns).unwrap(), merkle_join(&left, &right));
    assert_eq!(
        MerkleRoot::from(&txns).unwrap(),
        "7205858042cd5279982c2b2cdd781b56654521de64d653c506d65dde14cbe20d"
    );
}

#[test]
fn merkle_root_of_four_transactions() {
    assert_eq!(
        MerkleRoot::from(&merkle_sample(4)).unwrap(),
        "3240189ecbd7636a4fe9754a6ca5f8cb2cba99983e001f0a2f400e5d27eeaf56"
    );
}

#[test]
fn merkle_root_of_five_transactions_doubles_on_two_levels() {
    let txns = merkle_sample(5);
    let l: Vec<String> = txns.iter().map(merkle_leaf).collect();
    let a = merkle_join(&l[0], &l[1]);
    let b = merkle_join(&l[2], &l[3]);
    let c = merkle_join(&l[4], &l[4]);
    let left = merkle_join(&a, &b);
    let right = merkle_join(&c, &c);
    assert_eq!(MerkleRoot::from(&txns).unwrap(), merkle_join(&left, &right));
    assert_eq!(
        MerkleRoot::from(&txns).unwrap(),
        "98453b9dd86dfa89e3c18199a96587e95047133f242ccd5b3a1c6886e0568e72"
    );
}

#[test]
fn merkle_root_of_six_transactions() {
    assert_eq!(
        MerkleRoot::from(&merkle_sample(6)).unwrap(),
        "6b48271854dc4df8fe999309d64fee02f7d80833f3a80e4d1dbaf065df4dc135"
    );
}

#[test]
fn merkle_root_goes_by_the_escaped_json_text() {
    let txns = vec![merkle_txn("q\"1", "a\\b", "line\nbreak\t\u{1}", 5)];
    assert_eq!(
        MerkleRoot::from(&txns).unwrap(),
        "aef922037b48dfbaccb6052e73cad901485932bcc9d248853aa81dc6c6f01076"
    );
}

#[test]
fn merkle_root_leaves_the_transactions_as_they_are() {
    let txns = merkle_sample(3);
    let before = txns.clone();
    MerkleRoot::from(&txns).unwrap();
    assert_eq!(txns, before);
}

#[test]
fn merkle_root_depends_on_the_order() {
    let txns = merkle_sample(2);
    let swapped = vec![txns[1].clone(), txns[0].clone()];
    assert_ne!(MerkleRoot::from(&txns).unwrap(), MerkleRoot::from(&swapped).unwrap());
}

#[test]
fn new_block_is_unmined() {
    let txns = merkle_sample(2);
    let block = Block::new("abc".to_string(), txns.clone(), 4, 3);
    assert_eq!(block.header.index, 4);
    assert_eq!(block.header.previous_hash, "abc");
    assert_eq!(block.header.current_hash, "");
    assert_eq!(block.header.coinbase_txn.amount, 0);
    assert_eq!(block.header.coinbase_txn.validator, "");
    assert_eq!(block.header.merkle_root, "");
    assert_eq!(block.header.nonce, 0);
    assert_eq!(block.header.difficulty, 3);
    assert_eq!(block.body.txn_data, txns);
    assert!(block.header.timestamp > 1_600_000_000);
}

#[test]
fn block_at_a_given_time() {
    let block = Block::at("abc".to_string(), vec![], 0, 2, 1700000000);
    assert_eq!(block.header.timestamp, 1700000000);
    assert_eq!(block.header.index, 0);
    assert_eq!(block.header.previous_hash, "abc");
    assert_eq!(block.header.current_hash, "");
    assert_eq!(block.header.merkle_root, "");
    assert_eq!(block.header.nonce, 0);
    assert_eq!(block.header.difficulty, 2);
    assert!(block.body.txn_data.is_empty());
    let copy = block.clone();
    assert_eq!(copy.header.timestamp, 1700000000);
    assert_eq!(copy.header.previous_hash, "abc");
}
