use blockchain::client::Command;
use blockchain::json::coinbase_json_text;
use blockchain::json::txn_json_text;
use blockchain::json::txn_list_json_text;
use blockchain::transaction::CoinbaseTxn;
use blockchain::transaction::Txn;

fn is_lower_hex(text: &str) -> bool {
    text.chars().all(|c| c.is_ascii_digit() || ('a'..='f').contains(&c))
}

#[test]
fn with_id_keeps_the_fields() {
    let txn = Txn::with_id("id".to_string(), "A".to_string(), "B".to_string(), 7);
    assert_eq!(txn.id, "id");
    assert_eq!(txn.sender, "A");
    assert_eq!(txn.receiver, "B");
    assert_eq!(txn.amount, 7);
}

#[test]
fn new_keeps_the_fields_and_makes_an_id() {
    let txn = Txn::new("A".to_string(), "B".to_string(), 7);
    assert_eq!(txn.sender, "A");
    assert_eq!(txn.receiver, "B");
    assert_eq!(txn.amount, 7);
    assert_eq!(txn.id.len(), 64);
    assert!(is_lower_hex(&txn.id));
}

#[test]
fn id_is_the_digest_of_fields_and_noise() {
    assert_eq!(
        Txn::calculate_id("A", "B", 7, 12345),
        "587383b2098c79200f587ce4743bca15005116f580a5b0e6450c663f760f13ef"
    );
    assert_eq!(
        Txn::calculate_id("alice", "bob", 0, 0),
        "70d412a1544d69aeaf8ebd84a03532d19d55ee725bb16029c26a18fa727ed23a"
    );
}

#[test]
fn id_depends_on_the_noise() {
    assert_ne!(Txn::calculate_id("A", "B", 7, 1), Txn::calculate_id("A", "B", 7, 2));
}

#[test]
fn transactions_are_equal_when_all_fields_are() {
    let txn = Txn::with_id("id".to_string(), "A".to_string(), "B".to_string(), 7);
    assert_eq!(txn, txn.clone());
    assert_ne!(txn, Txn::with_id("id2".to_string(), "A".to_string(), "B".to_string(), 7));
    assert_ne!(txn, Txn::with_id("id".to_string(), "C".to_string(), "B".to_string(), 7));
    assert_ne!(txn, Txn::with_id("id".to_string(), "A".to_string(), "C".to_string(), 7));
    assert_ne!(txn, Txn::with_id("id".to_string(), "A".to_string(), "B".to_string(), 8));
}

#[test]
fn default_transaction_is_empty() {
    let txn = Txn::default();
    assert_eq!(txn, Txn::with_id(String::new(), String::new(), String::new(), 0));
}

#[test]
fn new_coinbase_is_empty() {
    let coinbase = CoinbaseTxn::new();
    assert_eq!(coinbase.amount, 0);
    assert_eq!(coinbase.validator, "");
    assert_eq!(coinbase, coinbase.clone());
}

#[test]
fn json_of_a_transaction() {
    let txn = Txn::with_id("id1".to_string(), "A".to_string(), "B".to_string(), 7);
    assert_eq!(
        txn_json_text(&txn).unwrap(),
        "{\"id\":\"id1\",\"sender\":\"A\",\"receiver\":\"B\",\"amount\":7}"
    );
}

#[test]
fn json_escapes_quotes_backslashes_and_control_characters() {
    let txn = Txn::with_id(
        "q\"1".to_string(),
        "a\\b".to_string(),
        "line\nbreak\t\u{1}".to_string(),
        5,
    );
    assert_eq!(
        txn_json_text(&txn).unwrap(),
        "{\"id\":\"q\\\"1\",\"sender\":\"a\\\\b\",\"receiver\":\"line\\nbreak\\t\\u0001\",\"amount\":5}"
    );
}

#[test]
fn json_keeps_text_outside_ascii() {
    let txn = Txn::with_id("é".to_string(), "日本".to_string(), "B".to_string(), 1);
    assert_eq!(
        txn_json_text(&txn).unwrap(),
        "{\"id\":\"é\",\"sender\":\"日本\",\"receiver\":\"B\",\"amount\":1}"
    );
}

#[test]
fn json_of_a_list_of_transactions() {
    let a = Txn::with_id("id1".to_string(), "A".to_string(), "B".to_string(), 7);
    let b = Txn::with_id("id2".to_string(), "B".to_string(), "C".to_string(), 9);
    assert_eq!(txn_list_json_text(&vec![]).unwrap(), "");
    assert_eq!(txn_list_json_text(&vec![a.clone()]).unwrap(), txn_json_text(&a).unwrap());
    assert_eq!(
        txn_list_json_text(&vec![a.clone(), b.clone()]).unwrap(),
        format!("{},{}", txn_json_text(&a).unwrap(), txn_json_text(&b).unwrap())
    );
}

#[test]
fn json_of_a_coinbase() {
    let coinbase = CoinbaseTxn { amount: 50, validator: "0x42".to_string() };
    assert_eq!(coinbase_json_text(&coinbase).unwrap(), "{\"amount\":50,\"validator\":\"0x42\"}");
}

#[test]
fn command_becomes_a_transaction() {
    let command = Command::Txn { sender: "A".to_string(), receiver: "B".to_string(), value: 7 };
    let txn = command.clone().into_txn();
    assert_eq!(txn.sender, "A");
    assert_eq!(txn.receiver, "B");
    assert_eq!(txn.amount, 7);
    assert_eq!(txn.id.len(), 64);
    assert!(is_lower_hex(&txn.id));
}

#[test]
fn commands_are_equal_when_all_fields_are() {
    let command = Command::Txn { sender: "A".to_string(), receiver: "B".to_string(), value: 7 };
    assert_eq!(command, command.clone());
    assert_ne!(
        command,
        Command::Txn { sender: "A".to_string(), receiver: "B".to_string(), value: 8 }
    );
    assert_ne!(
        command,
        Command::Txn { sender: "B".to_string(), receiver: "A".to_string(), value: 7 }
    );
}
