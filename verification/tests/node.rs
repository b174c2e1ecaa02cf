use nodemgr::node::{Chain, ChainParseError, Node};
use std::str::FromStr;

#[test]
fn chain_names() {
    assert_eq!(Chain::from_str("mainnet"), Ok(Chain::Mainnet));
    assert_eq!(Chain::from_str("testnet"), Ok(Chain::Testnet));
    assert_eq!(Chain::from_str("custom"), Ok(Chain::Custom(String::new())));
}

#[test]
fn chain_unknown_names() {
    assert_eq!(Chain::parse("Mainnet"), Err(ChainParseError::VariantNotFound));
    assert_eq!(Chain::parse("main net"), Err(ChainParseError::VariantNotFound));
    assert_eq!(Chain::parse(""), Err(ChainParseError::VariantNotFound));
}

#[test]
fn chain_default_is_testnet() {
    assert_eq!(Chain::default(), Chain::Testnet);
}

#[test]
fn node_default() {
    let n = Node::default();
    assert_eq!(n.name, "selendra");
    assert_eq!(n.path, "/var/lib/selendra");
    assert_eq!(n.chain, Chain::Testnet);
}

#[test]
fn node_new_writes_snake_case() {
    let n = Node::new("Alpha Node", "Data Dir", &Chain::Mainnet);
    assert_eq!(n.name, "alpha_node");
    assert_eq!(n.path, "Data Dir");
    assert_eq!(n.chain, Chain::Mainnet);
}

#[test]
fn node_new_keeps_custom_chain() {
    let n = Node::new("x", "y", &Chain::Custom("spec.json".to_string()));
    assert_eq!(n.chain, Chain::Custom("spec.json".to_string()));
}

#[test]
fn node_copy_is_equal() {
    let n = Node::new("Beta", "b", &Chain::Testnet);
    let c = n.copied();
    assert_eq!(c.name, n.name);
    assert_eq!(c.path, n.path);
    assert_eq!(c.chain, n.chain);
}

#[test]
fn node_new_keeps_path() {
    let n = Node::new("alice", "/data/Node-A", &Chain::Testnet);
    assert_eq!(n.path, "/data/Node-A");
}
