//! The market handle: loading, caching, and planning the order lifecycle.

use openbook::address::{contains_address, Address};
use openbook::error::MarketError;
use openbook::market::{
    AccountRecord, DebuggableRpcClient, Market, BID_EXPIRY_SECS, QUOTE_BUDGET_WITH_FEE,
};
use openbook::orders::{CacheLookup, OpenOrders};
use openbook::plans::{OrderKind, SelfTradePolicy, Side};

fn market_bytes(bids: [u8; 32], asks: [u8; 32], coin_lot: u64, pc_lot: u64) -> Vec<u8> {
    let mut d = vec![0u8; 388];
    d[0..5].copy_from_slice(b"serum");
    d[381..388].copy_from_slice(b"padding");
    d[5..13].copy_from_slice(&3u64.to_le_bytes());
    d[117..149].copy_from_slice(&[0xaa; 32]);
    d[165..197].copy_from_slice(&[0xbb; 32]);
    d[221..253].copy_from_slice(&[0xcc; 32]);
    d[253..285].copy_from_slice(&[0xdd; 32]);
    d[285..317].copy_from_slice(&bids);
    d[317..349].copy_from_slice(&asks);
    d[349..357].copy_from_slice(&coin_lot.to_le_bytes());
    d[357..365].copy_from_slice(&pc_lot.to_le_bytes());
    d
}

fn slab_bytes(flags: u64, nodes: &[Vec<u8>], leaf_count: u64) -> Vec<u8> {
    let mut d = Vec::new();
    d.extend_from_slice(b"serum");
    d.extend_from_slice(&flags.to_le_bytes());
    let mut header = vec![0u8; 32];
    header[24..32].copy_from_slice(&leaf_count.to_le_bytes());
    d.extend_from_slice(&header);
    for n in nodes {
        d.extend_from_slice(n);
    }
    d.extend_from_slice(b"padding");
    d
}

fn leaf_node(key: u128, owner: [u8; 32]) -> Vec<u8> {
    let mut n = vec![0u8; 72];
    n[0..4].copy_from_slice(&2u32.to_le_bytes());
    n[8..24].copy_from_slice(&key.to_le_bytes());
    n[24..56].copy_from_slice(&owner);
    n
}

fn key_of(price: u64, seq: u64) -> u128 {
    ((price as u128) << 64) | (seq as u128)
}

fn test_market() -> Market {
    let mut m = Market::new(
        DebuggableRpcClient::new(String::from("http://localhost:8899")),
        Address::from_bytes([11; 32]),
        Address::from_bytes([12; 32]),
        Address::from_bytes([13; 32]),
    );
    m.orders_key = Address::from_bytes([42; 32]);
    m.usdc_ata = Address::from_bytes([14; 32]);
    m.wsol_ata = Address::from_bytes([15; 32]);
    m.vault_signer_key = Address::from_bytes([16; 32]);
    m
}

fn account_owned_by(owner: [u8; 32], data: Vec<u8>) -> AccountRecord {
    AccountRecord {
        lamports: 1,
        data,
        owner: Address::from_bytes(owner),
        executable: false,
        rent_epoch: 0,
    }
}

#[test]
fn load_rejects_foreign_owner_untouched() {
    let mut m = test_market();
    let account = account_owned_by([99; 32], market_bytes([1; 32], [2; 32], 5, 5));
    let before_lot = m.coin_lot_size;
    let before_vault = m.coin_vault.to_bytes();
    let before_queue = m.event_queue.to_bytes();
    let r = m.load(&account);
    assert_eq!(r.unwrap_err(), MarketError::OwnershipMismatch);
    assert_eq!(m.coin_lot_size, before_lot);
    assert_eq!(m.coin_vault.to_bytes(), before_vault);
    assert_eq!(m.event_queue.to_bytes(), before_queue);
}

#[test]
fn load_applies_the_control_block() {
    let mut m = test_market();
    let account = account_owned_by([11; 32], market_bytes([1; 32], [2; 32], 500, 7));
    let c = m.load(&account).unwrap();
    assert_eq!(m.coin_vault.to_bytes(), [0xaa; 32]);
    assert_eq!(m.pc_vault.to_bytes(), [0xbb; 32]);
    assert_eq!(m.request_queue.to_bytes(), [0xcc; 32]);
    assert_eq!(m.event_queue.to_bytes(), [0xdd; 32]);
    assert_eq!(m.coin_lot_size, 500);
    assert_eq!(m.pc_lot_size, 7);
    assert_eq!(m.account_flags, 3);
    assert_eq!(c.bids.to_bytes(), [1; 32]);
    assert_eq!(c.asks.to_bytes(), [2; 32]);
}

#[test]
fn load_propagates_decode_errors_untouched() {
    let mut m = test_market();
    let account = account_owned_by([11; 32], vec![0u8; 10]);
    let before_lot = m.coin_lot_size;
    let r = m.load(&account);
    assert_eq!(r.unwrap_err(), MarketError::WrongDataLength);
    assert_eq!(m.coin_lot_size, before_lot);
}

#[test]
fn bids_asks_addresses_round_trip() {
    let mut m = test_market();
    let account = account_owned_by([11; 32], market_bytes([1; 32], [2; 32], 5, 5));
    let c = m.load(&account).unwrap();
    let (bids_address, asks_address) = m.get_bids_asks_addresses(&c);
    assert_eq!(bids_address.to_bytes(), [1; 32]);
    assert_eq!(asks_address.to_bytes(), [2; 32]);
}

#[test]
fn full_load_builds_the_snapshot() {
    let mut m = test_market();
    let me = [42u8; 32];
    let other = [9u8; 32];
    let account = account_owned_by([11; 32], market_bytes([1; 32], [2; 32], 500, 1));
    let c = m.load(&account).unwrap();
    let bids_data = slab_bytes(
        33,
        &[leaf_node(key_of(8, 1), me), leaf_node(key_of(6, 2), other)],
        2,
    );
    let asks_data = slab_bytes(
        65,
        &[leaf_node(key_of(12, 1), other), leaf_node(key_of(10, 2), me)],
        2,
    );
    let (bids_address, asks_address, info) = m.load_bids_asks_info(&c, &bids_data, &asks_data).unwrap();
    assert_eq!(bids_address.to_bytes(), [1; 32]);
    assert_eq!(asks_address.to_bytes(), [2; 32]);
    assert_eq!(info.max_bid, 8);
    assert_eq!(info.open_bids, vec![key_of(8, 1)]);
    assert_eq!(info.open_bids_prices, vec![8]);
    assert_eq!(info.min_ask, 10);
    assert_eq!(info.open_asks, vec![key_of(10, 2)]);
    assert_eq!(info.open_asks_prices, vec![10]);
    assert_eq!(m.market_info.bids_address.to_bytes(), [1; 32]);
    assert_eq!(m.market_info.asks_address.to_bytes(), [2; 32]);
    // The snapshot getters serve the cached snapshot without re-fetching.
    let again = m.load_bids();
    assert_eq!(again.max_bid, 8);
    assert_eq!(again.min_ask, 10);
    let again = m.load_asks();
    assert_eq!(again.open_asks, vec![key_of(10, 2)]);
}

#[test]
fn snapshot_load_fails_on_swapped_sides_untouched() {
    let mut m = test_market();
    let account = account_owned_by([11; 32], market_bytes([1; 32], [2; 32], 500, 1));
    let c = m.load(&account).unwrap();
    let bids_data = slab_bytes(65, &[], 0);
    let asks_data = slab_bytes(33, &[], 0);
    let before_info_bids = m.market_info.bids_address.to_bytes();
    let r = m.load_bids_asks_info(&c, &bids_data, &asks_data);
    assert_eq!(r.unwrap_err(), MarketError::BadAccountFlags);
    assert_eq!(m.market_info.bids_address.to_bytes(), before_info_bids);
}

#[test]
fn zero_bid_fails_the_precondition() {
    let m = test_market();
    let r = m.place_limit_bid(0, 1_000);
    assert_eq!(r.unwrap_err(), MarketError::ZeroBidPrice);
}

#[test]
fn zero_lot_size_fails_the_bid_plan() {
    let mut m = test_market();
    m.coin_lot_size = 0;
    let r = m.place_limit_bid(2000, 1_000);
    assert_eq!(r.unwrap_err(), MarketError::ZeroLotSize);
}

#[test]
fn zero_order_id_fails_the_precondition() {
    let m = test_market();
    let r = m.cancel_order(0);
    assert_eq!(r.unwrap_err(), MarketError::ZeroOrderId);
}

#[test]
fn limit_bid_plan_carries_the_documented_parameters() {
    let m = test_market();
    assert_eq!(m.coin_lot_size, 1_000_000);
    let now = 10_000u64;
    let p = m.place_limit_bid(2000, now).unwrap();
    assert_eq!(p.limit_price, 2000);
    assert_eq!(p.max_coin_qty, 1_000_000);
    assert_eq!(p.max_native_pc_qty_including_fees, QUOTE_BUDGET_WITH_FEE);
    assert_eq!(p.max_native_pc_qty_including_fees, 1_100_000);
    assert_eq!(p.expiry_unix_secs, (now + BID_EXPIRY_SECS) as i64);
    assert!(matches!(p.order_kind, OrderKind::PostOnly));
    assert!(matches!(p.self_trade_policy, SelfTradePolicy::AbortTransaction));
    assert!(matches!(p.side, Side::Bid));
    assert_eq!(p.limit, u16::MAX);
    assert_eq!(p.market.to_bytes(), [12; 32]);
    assert_eq!(p.owner.to_bytes(), [13; 32]);
    assert_eq!(p.open_orders_account.to_bytes(), [42; 32]);
    assert_eq!(p.order_payer.to_bytes(), [14; 32]);
    assert_eq!(p.program_id.to_bytes(), [11; 32]);
}

#[test]
fn cancel_plan_names_the_order() {
    let m = test_market();
    let p = m.cancel_order(77).unwrap();
    assert_eq!(p.order_id, 77u128);
    assert!(matches!(p.side, Side::Bid));
    assert_eq!(p.market.to_bytes(), [12; 32]);
    assert_eq!(p.open_orders_account.to_bytes(), [42; 32]);
    assert_eq!(p.owner.to_bytes(), [13; 32]);
}

#[test]
fn settle_plan_names_vaults_and_wallets() {
    let m = test_market();
    let p = m.settle_balance();
    assert_eq!(p.coin_wallet.to_bytes(), [15; 32]);
    assert_eq!(p.pc_wallet.to_bytes(), [14; 32]);
    assert_eq!(p.vault_signer.to_bytes(), [16; 32]);
    assert_eq!(p.open_orders_account.to_bytes(), [42; 32]);
}

#[test]
fn match_orders_plan_keeps_the_limit() {
    let m = test_market();
    let p = m.make_match_orders_transaction(100);
    assert_eq!(p.limit, 100);
    assert_eq!(p.market.to_bytes(), [12; 32]);
}

#[test]
fn consume_events_plan_keeps_the_accounts() {
    let m = test_market();
    let accounts = vec![Address::from_bytes([1; 32]), Address::from_bytes([2; 32])];
    let p = m.make_consume_events_instruction(accounts, 10);
    assert_eq!(p.open_orders_accounts.len(), 2);
    assert_eq!(p.open_orders_accounts[0].to_bytes(), [1; 32]);
    assert_eq!(p.limit, 10);
}

#[test]
fn permissioned_consume_events_reuses_the_event_queue_as_authority() {
    let mut m = test_market();
    m.event_queue = Address::from_bytes([0xdd; 32]);
    let p = m.make_consume_events_permissioned_instruction(vec![Address::from_bytes([1; 32])], 5);
    assert_eq!(p.consume_events_authority.to_bytes(), [0xdd; 32]);
    assert_eq!(p.event_queue.to_bytes(), [0xdd; 32]);
}

#[test]
fn cache_timestamps_never_decrease() {
    let mut m = test_market();
    let owner = Address::from_bytes([5; 32]);
    m.record_open_orders_accounts(&owner, vec![Address::from_bytes([6; 32])], 100);
    assert_eq!(m.open_orders_accounts_cache.slots[0].entry.ts, 100);
    // A refresh with an earlier clock reading keeps the later timestamp.
    m.record_open_orders_accounts(&owner, vec![Address::from_bytes([6; 32])], 50);
    assert_eq!(m.open_orders_accounts_cache.slots[0].entry.ts, 100);
    m.record_open_orders_accounts(&owner, vec![Address::from_bytes([6; 32])], 200);
    assert_eq!(m.open_orders_accounts_cache.slots[0].entry.ts, 200);
    // Still exactly one entry for the owner.
    assert_eq!(m.open_orders_accounts_cache.slots.len(), 1);
}

#[test]
fn cache_hit_serves_without_a_remote_call() {
    let mut m = test_market();
    let owner = Address::from_bytes([5; 32]);
    m.record_open_orders_accounts(&owner, vec![Address::from_bytes([6; 32])], 1_000);
    match m.find_open_orders_accounts_for_owner(&owner, 1_500, 1_000) {
        CacheLookup::Hit(v) => {
            assert_eq!(v.len(), 1);
            assert_eq!(v[0].to_bytes(), [6; 32]);
        }
        CacheLookup::Miss => panic!("a fresh entry must be served from the cache"),
    }
}

#[test]
fn cache_expires_after_the_window() {
    let mut m = test_market();
    let owner = Address::from_bytes([5; 32]);
    m.record_open_orders_accounts(&owner, vec![Address::from_bytes([6; 32])], 1_000);
    assert!(matches!(
        m.find_open_orders_accounts_for_owner(&owner, 2_000, 1_000),
        CacheLookup::Miss
    ));
    assert!(matches!(
        m.find_open_orders_accounts_for_owner(&owner, 2_500, 1_000),
        CacheLookup::Miss
    ));
}

#[test]
fn cache_misses_an_unknown_owner() {
    let m = test_market();
    let owner = Address::from_bytes([5; 32]);
    assert!(matches!(
        m.find_open_orders_accounts_for_owner(&owner, 1_000, 1_000),
        CacheLookup::Miss
    ));
}

#[test]
fn cache_keeps_one_entry_per_owner() {
    let mut m = test_market();
    let a = Address::from_bytes([5; 32]);
    let b = Address::from_bytes([7; 32]);
    m.record_open_orders_accounts(&a, vec![Address::from_bytes([1; 32])], 10);
    m.record_open_orders_accounts(&b, vec![Address::from_bytes([2; 32])], 20);
    m.record_open_orders_accounts(&a, vec![Address::from_bytes([3; 32])], 30);
    assert_eq!(m.open_orders_accounts_cache.slots.len(), 2);
    match m.find_open_orders_accounts_for_owner(&a, 30, 100) {
        CacheLookup::Hit(v) => assert_eq!(v[0].to_bytes(), [3; 32]),
        CacheLookup::Miss => panic!("entry for the first owner must survive"),
    }
}

#[test]
fn load_orders_for_owner_consults_the_traders_entry() {
    let mut m = test_market();
    let trader = m.trader;
    m.record_open_orders_accounts(&trader, vec![Address::from_bytes([6; 32])], 100);
    match m.load_orders_for_owner(150, 100) {
        CacheLookup::Hit(v) => assert_eq!(v[0].to_bytes(), [6; 32]),
        CacheLookup::Miss => panic!("the trader's fresh entry must be served"),
    }
    assert!(matches!(m.load_orders_for_owner(300, 100), CacheLookup::Miss));
}

#[test]
fn filter_keeps_records_on_this_markets_trees() {
    let mut m = test_market();
    m.market_info.bids_address = Address::from_bytes([1; 32]);
    m.market_info.asks_address = Address::from_bytes([2; 32]);
    let bids = m.load_bids();
    let asks = m.load_asks();
    let records = vec![
        OpenOrders::new(m.market_address, Address::from_bytes([1; 32]), m.trader),
        OpenOrders::new(m.market_address, Address::from_bytes([9; 32]), m.trader),
        OpenOrders::new(m.market_address, Address::from_bytes([2; 32]), m.trader),
    ];
    let kept = m.filter_for_open_orders(bids, asks, records);
    assert_eq!(kept.len(), 2);
    assert_eq!(kept[0].address.to_bytes(), [1; 32]);
    assert_eq!(kept[1].address.to_bytes(), [2; 32]);
}

#[test]
fn account_view_passes_the_callers_flags_through() {
    let m = test_market();
    let account = account_owned_by([11; 32], vec![1, 2, 3]);
    let key = Address::from_bytes([8; 32]);
    let program = Address::from_bytes([11; 32]);
    let view = m.create_account_info_from_account(&account, &key, &program, true, false);
    assert!(view.is_signer);
    assert!(!view.is_writable);
    assert_eq!(view.data, vec![1, 2, 3]);
    assert_eq!(view.key.to_bytes(), [8; 32]);
    let view = m.create_account_info_from_account(&account, &key, &program, false, true);
    assert!(!view.is_signer);
    assert!(view.is_writable);
}

#[test]
fn address_round_trip_and_membership() {
    let a = Address::from_bytes([3; 32]);
    assert_eq!(a.to_bytes(), [3; 32]);
    let list = vec![Address::from_bytes([1; 32]), Address::from_bytes([3; 32])];
    assert!(contains_address(&list, &a));
    assert!(!contains_address(&list, &Address::from_bytes([4; 32])));
    assert_eq!(Address::zeroed().to_bytes(), [0; 32]);
}

#[test]
fn random_client_tags_fit_the_plan() {
    let m = test_market();
    let p1 = m.place_limit_bid(2000, 1_000).unwrap();
    let p2 = m.place_limit_bid(2000, 1_000).unwrap();
    // Both plans are complete; the tags are whatever the generator drew.
    assert_eq!(p1.limit_price, p2.limit_price);
}
