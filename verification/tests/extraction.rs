//! Walking the decoded order-book sides.

use openbook::address::Address;
use openbook::book::{OrderBookSide, ASKS_ACCOUNT_FLAGS, BIDS_ACCOUNT_FLAGS};
use openbook::market::{DebuggableRpcClient, Market};

fn slab_bytes(flags: u64, nodes: &[Vec<u8>], leaf_count: u64) -> Vec<u8> {
    let mut d = Vec::new();
    d.extend_from_slice(b"serum");
    d.extend_from_slice(&flags.to_le_bytes());
    let mut header = vec![0u8; 32];
    header[24..32].copy_from_slice(&leaf_count.to_le_bytes());
    d.extend_from_slice(&header);
    for n in nodes {
        d.extend_from_slice(n);
    }
    d.extend_from_slice(b"padding");
    d
}

fn leaf_node(key: u128, owner: [u8; 32]) -> Vec<u8> {
    let mut n = vec![0u8; 72];
    n[0..4].copy_from_slice(&2u32.to_le_bytes());
    n[8..24].copy_from_slice(&key.to_le_bytes());
    n[24..56].copy_from_slice(&owner);
    n
}

fn key_of(price: u64, seq: u64) -> u128 {
    ((price as u128) << 64) | (seq as u128)
}

fn test_market() -> Market {
    let mut m = Market::new(
        DebuggableRpcClient::new(String::from("http://localhost:8899")),
        Address::from_bytes([11; 32]),
        Address::from_bytes([12; 32]),
        Address::from_bytes([13; 32]),
    );
    m.orders_key = Address::from_bytes([42; 32]);
    m
}

#[test]
fn empty_ask_side_extracts_zero() {
    let m = test_market();
    let data = slab_bytes(ASKS_ACCOUNT_FLAGS, &[], 0);
    let mut side = OrderBookSide::decode(&data, ASKS_ACCOUNT_FLAGS).unwrap();
    let (ids, prices, min_ask) = m.process_asks(&mut side);
    assert!(ids.is_empty());
    assert!(prices.is_empty());
    assert_eq!(min_ask, 0);
}

#[test]
fn empty_bid_side_extracts_zero() {
    let m = test_market();
    let data = slab_bytes(BIDS_ACCOUNT_FLAGS, &[], 0);
    let mut side = OrderBookSide::decode(&data, BIDS_ACCOUNT_FLAGS).unwrap();
    let (ids, prices, max_bid) = m.process_bids(&mut side);
    assert!(ids.is_empty());
    assert!(prices.is_empty());
    assert_eq!(max_bid, 0);
}

#[test]
fn ask_walk_collects_exactly_the_callers_orders() {
    let m = test_market();
    let me = [42u8; 32];
    let other = [9u8; 32];
    // Three caller-owned asks interspersed with two foreign ones.
    let nodes = vec![
        leaf_node(key_of(5, 1), other),
        leaf_node(key_of(3, 2), me),
        leaf_node(key_of(9, 3), me),
        leaf_node(key_of(2, 4), other),
        leaf_node(key_of(7, 5), me),
    ];
    let data = slab_bytes(ASKS_ACCOUNT_FLAGS, &nodes, 5);
    let mut side = OrderBookSide::decode(&data, ASKS_ACCOUNT_FLAGS).unwrap();
    let (ids, prices, min_ask) = m.process_asks(&mut side);
    assert_eq!(ids, vec![key_of(3, 2), key_of(7, 5), key_of(9, 3)]);
    assert_eq!(prices, vec![3, 7, 9]);
    // The floor is the least key in the whole tree, a foreign order here.
    assert_eq!(min_ask, 2);
    // The walk drains the side.
    assert_eq!(side.len(), 0);
}

#[test]
fn bid_walk_stops_at_the_best_bid() {
    let m = test_market();
    let me = [42u8; 32];
    let other = [9u8; 32];
    let nodes = vec![
        leaf_node(key_of(5, 1), other),
        leaf_node(key_of(9, 2), me),
        leaf_node(key_of(7, 3), other),
    ];
    let data = slab_bytes(BIDS_ACCOUNT_FLAGS, &nodes, 3);
    let mut side = OrderBookSide::decode(&data, BIDS_ACCOUNT_FLAGS).unwrap();
    let (ids, prices, max_bid) = m.process_bids(&mut side);
    assert_eq!(max_bid, 9);
    assert_eq!(ids, vec![key_of(9, 2)]);
    assert_eq!(prices, vec![9]);
    // Only the top order was removed; the rest of the side stands.
    assert_eq!(side.len(), 2);
}

#[test]
fn bid_walk_reports_a_foreign_top_without_listing_it() {
    let m = test_market();
    let other = [9u8; 32];
    let nodes = vec![leaf_node(key_of(8, 1), other), leaf_node(key_of(6, 2), other)];
    let data = slab_bytes(BIDS_ACCOUNT_FLAGS, &nodes, 2);
    let mut side = OrderBookSide::decode(&data, BIDS_ACCOUNT_FLAGS).unwrap();
    let (ids, prices, max_bid) = m.process_bids(&mut side);
    assert_eq!(max_bid, 8);
    assert!(ids.is_empty());
    assert!(prices.is_empty());
    assert_eq!(side.len(), 1);
}

#[test]
fn ask_walk_with_equal_prices_keeps_key_order() {
    let m = test_market();
    let me = [42u8; 32];
    // Same price, different sequence bits: keys still differ.
    let nodes = vec![leaf_node(key_of(4, 9), me), leaf_node(key_of(4, 1), me)];
    let data = slab_bytes(ASKS_ACCOUNT_FLAGS, &nodes, 2);
    let mut side = OrderBookSide::decode(&data, ASKS_ACCOUNT_FLAGS).unwrap();
    let (ids, prices, min_ask) = m.process_asks(&mut side);
    assert_eq!(ids, vec![key_of(4, 1), key_of(4, 9)]);
    assert_eq!(prices, vec![4, 4]);
    assert_eq!(min_ask, 4);
}
