//! The market handle: identifying addresses, lot sizes, the last
//! extraction snapshot, the open-orders cache, and the planners for the
//! order lifecycle.
//!
//! The handle never talks to the network.  The surrounding application
//! fetches account bytes and hands them in, and carries the plans out as
//! signed transactions; everything the handle decides is verified here.

use vstd::prelude::*;

use crate::address::Address;
use crate::book::{
    asks_outputs_ok, bids_outputs_ok, book_leaves, keys_ascending, keys_of, leaf_key_fn,
    lemma_filter_push, lemma_filter_remove, lemma_map_values_multiset, lemma_max_key,
    lemma_min_key, max_key, min_key, owned_by, owned_leaves, price_of, price_of_key,
    slab_decode_error, slab_well_formed, LeafView, OrderBookSide, ASKS_ACCOUNT_FLAGS,
    BIDS_ACCOUNT_FLAGS,
};
use crate::control::{
    control_matches, decode_market_control, market_data_well_formed, market_decode_error,
    MarketControl,
};
use crate::error::MarketError;
use crate::orders::{
    copy_vec, fresh, same_info, CacheLookup, MarketInfo, OpenOrders, OpenOrdersCache,
};
use crate::plans::{
    CancelOrderPlan, ConsumeEventsPermissionedPlan, ConsumeEventsPlan, LimitOrderPlan,
    MatchOrdersPlan, OrderKind, SelfTradePolicy, SettleBalancePlan, Side,
};

verus! {

/// Relies on rand::random: a uniformly drawn value; nothing is promised
/// of which value comes back.
pub assume_specification<T>[ rand::random::<T> ]() -> (r: T)
    where
        rand::distributions::Standard: rand::distributions::Distribution<T>,
;

/// Quote budget attached to a planned bid: one nominal unit of 10^6
/// native quote units plus a ten-percent fee buffer.
pub const QUOTE_BUDGET_WITH_FEE: u64 = 1_100_000;

/// Seconds a planned bid stays valid after construction.
pub const BID_EXPIRY_SECS: u64 = 30;

/// Connection handle for the remote ledger node.  The library records
/// only the endpoint, which keeps the handle printable; the live
/// connection belongs to the surrounding application.
#[derive(Debug)]
pub struct DebuggableRpcClient {
    /// Where the remote node listens.
    pub endpoint: String,
}

impl DebuggableRpcClient {
    /// Wraps an endpoint.
    pub fn new(endpoint: String) -> (r: DebuggableRpcClient)
        ensures
            r.endpoint@ == endpoint@,
    {
        DebuggableRpcClient { endpoint }
    }
}

/// A raw account fetched from the ledger: its balance, bytes and true
/// owner program.
#[derive(Debug)]
pub struct AccountRecord {
    pub lamports: u64,
    pub data: Vec<u8>,
    /// The program that owns the account on the ledger.
    pub owner: Address,
    pub executable: bool,
    pub rent_epoch: u64,
}

/// A decoded, owned view of an account, tagged with the caller's intended
/// access for one operation.
#[derive(Debug)]
pub struct AccountView {
    pub key: Address,
    pub is_signer: bool,
    pub is_writable: bool,
    pub lamports: u64,
    pub data: Vec<u8>,
    pub owner: Address,
    pub executable: bool,
    pub rent_epoch: u64,
}

/// One exchange market, with everything the client tracks of it.
#[derive(Debug)]
pub struct Market {
    /// The remote node the surrounding application talks to.
    pub rpc_client: DebuggableRpcClient,
    /// The exchange program that owns the market's accounts.
    pub program_id: Address,
    /// The market's control account.
    pub market_address: Address,
    /// The public address of the signing credential.  The secret half
    /// stays with the application.
    pub trader: Address,
    /// Decimal places of the base currency.
    pub coin_decimals: u8,
    /// Decimal places of the quote currency.
    pub pc_decimals: u8,
    /// Minimum tradeable increment of the base currency.
    pub coin_lot_size: u64,
    /// Flag word copied from the market control block.
    pub account_flags: u64,
    /// Minimum tradeable increment of the quote currency.
    pub pc_lot_size: u64,
    /// The trader's quote-token wallet.
    pub usdc_ata: Address,
    /// The trader's base-token wallet.
    pub wsol_ata: Address,
    /// Vault holding pooled base currency.
    pub coin_vault: Address,
    /// Vault holding pooled quote currency.
    pub pc_vault: Address,
    /// The signer that releases the vaults.
    pub vault_signer_key: Address,
    /// The trader's open-orders account on this market.
    pub orders_key: Address,
    /// The market's event queue.
    pub event_queue: Address,
    /// The market's request queue.
    pub request_queue: Address,
    /// Cached open-orders lookups, one entry per owner.
    pub open_orders_accounts_cache: OpenOrdersCache,
    /// The last extraction snapshot.
    pub market_info: MarketInfo,
}

/// The fields no operation of the handle rewrites.
pub open spec fn same_identity(pre: Market, post: Market) -> bool {
    &&& post.rpc_client.endpoint@ == pre.rpc_client.endpoint@
    &&& post.program_id == pre.program_id
    &&& post.market_address == pre.market_address
    &&& post.trader == pre.trader
    &&& post.coin_decimals == pre.coin_decimals
    &&& post.pc_decimals == pre.pc_decimals
    &&& post.usdc_ata == pre.usdc_ata
    &&& post.wsol_ata == pre.wsol_ata
    &&& post.vault_signer_key == pre.vault_signer_key
    &&& post.orders_key == pre.orders_key
}

/// The fields that only a control-block load rewrites.
pub open spec fn same_control_fields(pre: Market, post: Market) -> bool {
    &&& post.coin_vault == pre.coin_vault
    &&& post.pc_vault == pre.pc_vault
    &&& post.request_queue == pre.request_queue
    &&& post.event_queue == pre.event_queue
    &&& post.account_flags == pre.account_flags
    &&& post.coin_lot_size == pre.coin_lot_size
    &&& post.pc_lot_size == pre.pc_lot_size
}

/// The open-orders cache is untouched.
pub open spec fn same_cache(pre: Market, post: Market) -> bool {
    post.open_orders_accounts_cache.slots@ == pre.open_orders_accounts_cache.slots@
}

/// A successful control-block load wrote exactly the decoded fields.
pub open spec fn control_applied(pre: Market, post: Market, c: MarketControl) -> bool {
    &&& same_identity(pre, post)
    &&& same_cache(pre, post)
    &&& same_info(post.market_info, pre.market_info)
    &&& post.coin_vault == c.coin_vault
    &&& post.pc_vault == c.pc_vault
    &&& post.request_queue == c.req_q
    &&& post.event_queue == c.event_q
    &&& post.account_flags == c.account_flags
    &&& post.coin_lot_size == c.coin_lot_size
    &&& post.pc_lot_size == c.pc_lot_size
}

impl Market {
    /// A fresh handle before its first load: the documented defaults for
    /// a 9/6-decimal market, zeroed addresses and an empty cache.  The
    /// surrounding application refreshes the addresses and lot sizes with
    /// `load` and fills in the wallet and open-orders addresses.
    pub fn new(
        rpc_client: DebuggableRpcClient,
        program_id: Address,
        market_address: Address,
        trader: Address,
    ) -> (r: Market)
        ensures
            r.rpc_client.endpoint@ == rpc_client.endpoint@,
            r.program_id == program_id,
            r.market_address == market_address,
            r.trader == trader,
            r.coin_decimals == 9,
            r.pc_decimals == 6,
            r.coin_lot_size == 1_000_000,
            r.pc_lot_size == 1,
            r.account_flags == 0,
            r.usdc_ata@ == Seq::<u8>::new(32, |i: int| 0u8),
            r.wsol_ata@ == Seq::<u8>::new(32, |i: int| 0u8),
            r.coin_vault@ == Seq::<u8>::new(32, |i: int| 0u8),
            r.pc_vault@ == Seq::<u8>::new(32, |i: int| 0u8),
            r.vault_signer_key@ == Seq::<u8>::new(32, |i: int| 0u8),
            r.orders_key@ == Seq::<u8>::new(32, |i: int| 0u8),
            r.event_queue@ == Seq::<u8>::new(32, |i: int| 0u8),
            r.request_queue@ == Seq::<u8>::new(32, |i: int| 0u8),
            r.open_orders_accounts_cache.wf(),
            r.open_orders_accounts_cache.slots@.len() == 0,
            r.market_info.min_ask == 0,
            r.market_info.max_bid == 0,
            r.market_info.open_asks@.len() == 0,
            r.market_info.open_bids@.len() == 0,
    {
        Market {
            rpc_client,
            program_id,
            market_address,
            trader,
            coin_decimals: 9,
            pc_decimals: 6,
            coin_lot_size: 1_000_000,
            account_flags: 0,
            pc_lot_size: 1,
            usdc_ata: Address::zeroed(),
            wsol_ata: Address::zeroed(),
            coin_vault: Address::zeroed(),
            pc_vault: Address::zeroed(),
            vault_signer_key: Address::zeroed(),
            orders_key: Address::zeroed(),
            event_queue: Address::zeroed(),
            request_queue: Address::zeroed(),
            open_orders_accounts_cache: OpenOrdersCache::new(),
            market_info: MarketInfo::empty(),
        }
    }

    /// Builds the owned account view, passing the caller's signer and
    /// writable intents through unchanged.
    pub fn create_account_info_from_account(
        &self,
        account: &AccountRecord,
        key: &Address,
        my_program_id: &Address,
        is_signer: bool,
        is_writable: bool,
    ) -> (r: AccountView)
        ensures
            r.key == *key,
            r.is_signer == is_signer,
            r.is_writable == is_writable,
            r.lamports == account.lamports,
            r.data@ == account.data@,
            r.owner == *my_program_id,
            r.executable == account.executable,
            r.rent_epoch == account.rent_epoch,
    {
        AccountView {
            key: *key,
            is_signer,
            is_writable,
            lamports: account.lamports,
            data: copy_vec(&account.data),
            owner: *my_program_id,
            executable: account.executable,
            rent_epoch: account.rent_epoch,
        }
    }

    /// Refreshes the handle from the market's control account.
    ///
    /// The trust boundary: an account owned by any program but the
    /// expected one is rejected before a byte of it is parsed, and the
    /// handle is left exactly as it was.  The caller goes on to fetch the
    /// two book accounts named by the result and hand them to
    /// `load_bids_asks_info`.
    pub fn load(&mut self, account: &AccountRecord) -> (r: Result<MarketControl, MarketError>)
        ensures
            account.owner@ != old(self).program_id@ ==> r == Err::<MarketControl, MarketError>(
                MarketError::OwnershipMismatch,
            ) && *final(self) == *old(self),
            account.owner@ == old(self).program_id@ ==> {
                &&& r is Ok <==> market_data_well_formed(account.data@)
                &&& (r matches Ok(c) ==> control_matches(c, account.data@) && control_applied(
                    *old(self),
                    *final(self),
                    c,
                ))
                &&& (r matches Err(e) ==> e == market_decode_error(account.data@) && *final(self)
                    == *old(self))
            },
    {
        if !(account.owner == self.program_id) {
            return Err(MarketError::OwnershipMismatch);
        }
        self.load_market_state_bids_info(&account.data)
    }

    /// Decodes the market control block and writes its vault, queue and
    /// lot-size fields into the handle.  On any decode failure the handle
    /// is left exactly as it was.
    pub fn load_market_state_bids_info(&mut self, data: &Vec<u8>) -> (r: Result<
        MarketControl,
        MarketError,
    >)
        ensures
            r is Ok <==> market_data_well_formed(data@),
            r matches Ok(c) ==> control_matches(c, data@) && control_applied(
                *old(self),
                *final(self),
                c,
            ),
            r matches Err(e) ==> e == market_decode_error(data@) && *final(self) == *old(self),
    {
        let control: MarketControl = match decode_market_control(data) {
            Ok(c) => c,
            Err(e) => {
                return Err(e);
            },
        };
        self.coin_vault = control.coin_vault;
        self.pc_vault = control.pc_vault;
        self.request_queue = control.req_q;
        self.account_flags = control.account_flags;
        self.coin_lot_size = control.coin_lot_size;
        self.pc_lot_size = control.pc_lot_size;
        self.event_queue = control.event_q;
        Ok(control)
    }

    /// The bid-tree and ask-tree account addresses named by a decoded
    /// control block.  Pure derivation; no fetch and no failure.
    pub fn get_bids_asks_addresses(&self, control: &MarketControl) -> (r: (Address, Address))
        ensures
            r.0 == control.bids,
            r.1 == control.asks,
    {
        (control.bids, control.asks)
    }

    /// Walks the top of the bid side: removes the best (greatest-key) bid
    /// to learn the best price and whether that one order is the
    /// caller's.  By design this is not a full scan; the rest of the side
    /// is left in place.
    pub fn process_bids(&self, bids: &mut OrderBookSide) -> (r: (Vec<u128>, Vec<u64>, u64))
        requires
            old(bids).wf(),
        ensures
            bids_outputs_ok(r.0@, r.1@, r.2, old(bids)@, self.orders_key@),
            r.2 == 0 <==> old(bids)@.len() == 0,
            old(bids)@.len() == 0 ==> final(bids)@ == old(bids)@,
            old(bids)@.len() > 0 ==> exists|i: int|
                0 <= i < old(bids)@.len() && (#[trigger] old(bids)@[i]).key == max_key(old(bids)@)
                    && final(bids)@ == old(bids)@.remove(i),
    {
        let mut max_bid: u64 = 0;
        let mut open_bids: Vec<u128> = Vec::new();
        let mut open_bids_prices: Vec<u64> = Vec::new();
        let node_opt: Option<crate::book::LeafOrder> = bids.remove_max();
        match node_opt {
            Some(node) => {
                let order_id: u128 = node.key;
                let price_raw: u64 = price_of(node.key);
                if max_bid == 0 {
                    max_bid = price_raw;
                }
                if node.owner == self.orders_key {
                    open_bids.push(order_id);
                    open_bids_prices.push(price_raw);
                }
                proof {
                    let i = choose|i: int|
                        0 <= i < old(bids)@.len() && node@ == old(bids)@[i] && final(bids)@ == old(
                            bids,
                        )@.remove(i);
                    lemma_max_key(old(bids)@);
                    assert(node@.key == max_key(old(bids)@));
                    if node.owner == self.orders_key {
                        assert(open_bids@ =~= seq![old(bids)@[i].key]);
                        assert(open_bids_prices@ =~= seq![price_of_key(old(bids)@[i].key)]);
                    }
                }
            },
            None => {},
        }
        (open_bids, open_bids_prices, max_bid)
    }

    /// Drains the ask side: removes the least-key ask again and again,
    /// collecting every resting ask of the caller's open-orders account
    /// and the price of the least key seen.
    pub fn process_asks(&self, asks: &mut OrderBookSide) -> (r: (Vec<u128>, Vec<u64>, u64))
        requires
            old(asks).wf(),
        ensures
            asks_outputs_ok(r.0@, r.1@, r.2, old(asks)@, self.orders_key@),
            r.2 == 0 <==> old(asks)@.len() == 0,
            final(asks)@.len() == 0,
    {
        broadcast use vstd::seq_lib::group_to_multiset_ensures;
        broadcast use vstd::multiset::group_multiset_axioms;

        let mut min_ask: u64 = 0;
        let mut open_asks: Vec<u128> = Vec::new();
        let mut open_asks_prices: Vec<u64> = Vec::new();
        let ghost me: Seq<u8> = self.orders_key@;
        let ghost orig: Seq<LeafView> = asks@;
        let ghost mut processed: Seq<LeafView> = Seq::empty();
        let ghost mut collected: Seq<LeafView> = Seq::empty();
        while asks.len() != 0
            invariant
                me == self.orders_key@,
                processed.to_multiset().add(asks@.to_multiset()) == orig.to_multiset(),
                collected.to_multiset().add(owned_leaves(asks@, me).to_multiset())
                    == owned_leaves(orig, me).to_multiset(),
                open_asks@ == keys_of(collected),
                open_asks_prices@.len() == open_asks@.len(),
                forall|x: int|
                    0 <= x < open_asks@.len() ==> open_asks_prices@[x] == price_of_key(
                        #[trigger] open_asks@[x],
                    ),
                keys_ascending(open_asks@),
                forall|x: int, y: int|
                    0 <= x < open_asks@.len() && 0 <= y < asks@.len() ==> #[trigger] open_asks@[x]
                        <= (#[trigger] asks@[y]).key,
                processed.len() == 0 ==> min_ask == 0 && asks@ == orig,
                processed.len() > 0 ==> min_ask == price_of_key(processed[0].key),
                processed.len() > 0 ==> orig.contains(processed[0]) && forall|y: int|
                    0 <= y < orig.len() ==> processed[0].key <= (#[trigger] orig[y]).key,
                forall|y: int| 0 <= y < orig.len() ==> price_of_key((#[trigger] orig[y]).key) != 0,
            decreases asks@.len(),
        {
            let ghost asks_before: Seq<LeafView> = asks@;
            let ghost processed_before: Seq<LeafView> = processed;
            let ghost collected_before: Seq<LeafView> = collected;
            let node_opt: Option<crate::book::LeafOrder> = asks.remove_min();
            match node_opt {
                Some(node) => {
                    let order_id: u128 = node.key;
                    let price_raw: u64 = price_of(node.key);
                    proof {
                        broadcast use vstd::seq_lib::group_to_multiset_ensures;
                        broadcast use vstd::multiset::group_multiset_axioms;

                        let i = choose|i: int|
                            0 <= i < asks_before.len() && node@ == asks_before[i] && asks@
                                == asks_before.remove(i);
                        processed = processed.push(node@);
                        assert(asks_before.contains(node@));
                        assert(processed.to_multiset() =~= processed_before.to_multiset().insert(
                            node@,
                        ));
                        assert(asks_before.remove(i).to_multiset()
                            =~= asks_before.to_multiset().remove(asks_before[i]));
                        assert(asks_before.to_multiset().count(node@) > 0);
                        assert(processed.to_multiset().add(asks@.to_multiset())
                            =~= processed_before.to_multiset().add(asks_before.to_multiset()));
                        lemma_filter_remove(asks_before, owned_by(me), i);
                        assert(orig.contains(processed[0])) by {
                            if processed_before.len() == 0 {
                                assert(processed[0] == node@);
                            } else {
                                assert(processed[0] == processed_before[0]);
                            }
                        }
                        if processed_before.len() > 0 {
                            let c0 = choose|c: int|
                                0 <= c < orig.len() && orig[c] == processed_before[0];
                            assert(price_of_key(processed_before[0].key) != 0);
                            assert(processed[0] == processed_before[0]);
                        }
                        assert(forall|y: int|
                            0 <= y < asks@.len() ==> exists|z: int|
                                0 <= z < asks_before.len() && #[trigger] asks@[y]
                                    == asks_before[z]) by {
                            assert(forall|y: int|
                                0 <= y < asks@.len() ==> #[trigger] asks@[y] == (if y < i {
                                    asks_before[y]
                                } else {
                                    asks_before[y + 1]
                                }));
                        }
                    }
                    if min_ask == 0 {
                        min_ask = price_raw;
                    }
                    if node.owner == self.orders_key {
                        open_asks.push(order_id);
                        open_asks_prices.push(price_raw);
                        proof {
                            broadcast use vstd::seq_lib::group_to_multiset_ensures;
                            broadcast use vstd::multiset::group_multiset_axioms;

                            collected = collected.push(node@);
                            assert(owned_by(me)(node@));
                            lemma_filter_push(collected_before, owned_by(me), node@);
                            assert(collected.to_multiset() =~= collected_before.to_multiset().insert(
                                node@,
                            ));
                            assert(owned_leaves(asks_before, me).to_multiset() =~= owned_leaves(
                                asks@,
                                me,
                            ).to_multiset().insert(node@));
                            assert(open_asks@ =~= keys_of(collected));
                            assert(collected.to_multiset().add(
                                owned_leaves(asks@, me).to_multiset(),
                            ) =~= owned_leaves(orig, me).to_multiset());
                        }
                    } else {
                        proof {
                            broadcast use vstd::seq_lib::group_to_multiset_ensures;
                            broadcast use vstd::multiset::group_multiset_axioms;

                            assert(!(owned_by(me)(node@)));
                            assert(owned_leaves(asks_before, me).to_multiset() =~= owned_leaves(
                                asks@,
                                me,
                            ).to_multiset());
                            assert(collected.to_multiset().add(
                                owned_leaves(asks@, me).to_multiset(),
                            ) =~= owned_leaves(orig, me).to_multiset());
                        }
                    }
                },
                None => {
                    proof {
                        assert(false);
                    }
                },
            }
        }
        proof {
            broadcast use vstd::seq_lib::group_to_multiset_ensures;
            broadcast use vstd::multiset::group_multiset_axioms;

            reveal(Seq::filter);
            assert(owned_leaves(asks@, me).len() == 0);
            assert(owned_leaves(asks@, me).to_multiset().len() == 0);
            assert(collected.to_multiset() =~= owned_leaves(orig, me).to_multiset());
            assert(collected.len() == collected.to_multiset().len());
            assert(owned_leaves(orig, me).len() == owned_leaves(orig, me).to_multiset().len());
            assert(open_asks@.len() == owned_leaves(orig, me).len());
            lemma_map_values_multiset(collected, owned_leaves(orig, me), leaf_key_fn());
            if orig.len() > 0 {
                assert(processed.len() > 0);
                lemma_min_key(orig);
                let w = choose|w: int| 0 <= w < orig.len() && orig[w].key == min_key(orig);
                let c = choose|c: int| 0 <= c < orig.len() && orig[c] == processed[0];
                assert(min_ask == price_of_key(min_key(orig)));
                assert(min_ask != 0);
            }
        }
        (open_asks, open_asks_prices, min_ask)
    }

    /// Decodes both book accounts, extracts the two sides, and replaces
    /// the snapshot.  On any decode failure the handle is left exactly as
    /// it was; the bid account is decoded first, so its error wins.
    pub fn load_bids_asks_info(
        &mut self,
        control: &MarketControl,
        bids_data: &Vec<u8>,
        asks_data: &Vec<u8>,
    ) -> (r: Result<(Address, Address, MarketInfo), MarketError>)
        ensures
            r is Ok <==> slab_well_formed(bids_data@, BIDS_ACCOUNT_FLAGS) && slab_well_formed(
                asks_data@,
                ASKS_ACCOUNT_FLAGS,
            ),
            r matches Err(e) ==> *final(self) == *old(self) && e == (
            if !slab_well_formed(bids_data@, BIDS_ACCOUNT_FLAGS) {
                slab_decode_error(bids_data@, BIDS_ACCOUNT_FLAGS)
            } else {
                slab_decode_error(asks_data@, ASKS_ACCOUNT_FLAGS)
            }),
            r matches Ok(t) ==> {
                &&& same_identity(*old(self), *final(self))
                &&& same_control_fields(*old(self), *final(self))
                &&& same_cache(*old(self), *final(self))
                &&& t.0 == control.bids
                &&& t.1 == control.asks
                &&& same_info(t.2, final(self).market_info)
                &&& final(self).market_info.bids_address == control.bids
                &&& final(self).market_info.asks_address == control.asks
                &&& bids_outputs_ok(
                    final(self).market_info.open_bids@,
                    final(self).market_info.open_bids_prices@,
                    final(self).market_info.max_bid,
                    book_leaves(bids_data@),
                    old(self).orders_key@,
                )
                &&& asks_outputs_ok(
                    final(self).market_info.open_asks@,
                    final(self).market_info.open_asks_prices@,
                    final(self).market_info.min_ask,
                    book_leaves(asks_data@),
                    old(self).orders_key@,
                )
                &&& final(self).market_info.base_total == 0
                &&& final(self).market_info.quote_total == 0
            },
    {
        let (bids_address, asks_address) = self.get_bids_asks_addresses(control);
        let mut bids: OrderBookSide = match OrderBookSide::decode(bids_data, BIDS_ACCOUNT_FLAGS) {
            Ok(b) => b,
            Err(e) => {
                return Err(e);
            },
        };
        let (open_bids, open_bids_prices, max_bid) = self.process_bids(&mut bids);
        let mut asks: OrderBookSide = match OrderBookSide::decode(asks_data, ASKS_ACCOUNT_FLAGS) {
            Ok(a) => a,
            Err(e) => {
                return Err(e);
            },
        };
        let (open_asks, open_asks_prices, min_ask) = self.process_asks(&mut asks);
        self.market_info = MarketInfo {
            min_ask,
            max_bid,
            open_asks,
            open_bids,
            bids_address,
            asks_address,
            open_asks_prices,
            open_bids_prices,
            base_total: 0,
            quote_total: 0,
        };
        let info: MarketInfo = self.market_info.duplicate();
        Ok((bids_address, asks_address, info))
    }

    /// The bid fields of the last snapshot.  Serves the cached snapshot;
    /// it does not re-fetch.
    pub fn load_bids(&mut self) -> (r: MarketInfo)
        ensures
            *final(self) == *old(self),
            same_info(r, old(self).market_info),
    {
        let address: Address = self.market_info.bids_address;
        self.load_orders(address)
    }

    /// The ask fields of the last snapshot.  Serves the cached snapshot;
    /// it does not re-fetch.
    pub fn load_asks(&mut self) -> (r: MarketInfo)
        ensures
            *final(self) == *old(self),
            same_info(r, old(self).market_info),
    {
        let address: Address = self.market_info.asks_address;
        self.load_orders(address)
    }

    /// A copy of the last snapshot.  The address argument names which
    /// side the caller wanted; the snapshot covers both.
    pub fn load_orders(&mut self, _address: Address) -> (r: MarketInfo)
        ensures
            *final(self) == *old(self),
            same_info(r, old(self).market_info),
    {
        self.market_info.duplicate()
    }

    /// Keeps only the open-orders records standing on this market's bid
    /// or ask tree.
    pub fn filter_for_open_orders(
        &self,
        bids: MarketInfo,
        asks: MarketInfo,
        open_orders_accounts: Vec<OpenOrders>,
    ) -> (r: Vec<OpenOrders>)
        ensures
            r@ == open_orders_accounts@.filter(
                |o: OpenOrders|
                    o.address@ == bids.bids_address@ || o.address@ == asks.asks_address@,
            ),
    {
        let ghost p = |o: OpenOrders|
            o.address@ == bids.bids_address@ || o.address@ == asks.asks_address@;
        let mut r: Vec<OpenOrders> = Vec::new();
        let n: usize = open_orders_accounts.len();
        let mut i: usize = 0;
        while i < n
            invariant
                n == open_orders_accounts@.len(),
                0 <= i <= n,
                r@ == open_orders_accounts@.subrange(0, i as int).filter(p),
                p == (|o: OpenOrders|
                    o.address@ == bids.bids_address@ || o.address@ == asks.asks_address@),
            decreases n - i,
        {
            let oo: OpenOrders = open_orders_accounts[i];
            let ghost prefix = open_orders_accounts@.subrange(0, i as int);
            if oo.address == bids.bids_address || oo.address == asks.asks_address {
                r.push(oo);
            }
            proof {
                lemma_filter_push(prefix, p, oo);
                assert(prefix.push(oo) =~= open_orders_accounts@.subrange(0, i + 1));
            }
            i = i + 1;
        }
        proof {
            assert(open_orders_accounts@.subrange(0, n as int) =~= open_orders_accounts@);
        }
        r
    }

    /// Consults the open-orders cache for `owner_address` at clock
    /// reading `now_ms`.  A fresh entry is served with no remote call; on
    /// a miss the caller performs the remote lookup and records it with
    /// `record_open_orders_accounts`.
    pub fn find_open_orders_accounts_for_owner(
        &self,
        owner_address: &Address,
        now_ms: u64,
        cache_duration_ms: u64,
    ) -> (r: CacheLookup)
        ensures
            r matches CacheLookup::Hit(v) ==> (self.open_orders_accounts_cache.spec_find(
                owner_address@,
            ) matches Some(slot) && fresh(slot.entry.ts, now_ms, cache_duration_ms) && v@
                == slot.entry.accounts@),
            r matches CacheLookup::Miss ==> (self.open_orders_accounts_cache.spec_find(
                owner_address@,
            ) matches Some(slot) ==> !fresh(slot.entry.ts, now_ms, cache_duration_ms)),
    {
        match self.open_orders_accounts_cache.lookup_fresh(
            owner_address,
            now_ms,
            cache_duration_ms,
        ) {
            Some(v) => CacheLookup::Hit(v),
            None => CacheLookup::Miss,
        }
    }

    /// Records a remote lookup's result in the cache, overwriting any
    /// earlier entry for the owner.  The entry's timestamp never moves
    /// backwards across repeated lookups: an overwrite keeps the later of
    /// the old timestamp and the clock reading handed in.
    pub fn record_open_orders_accounts(
        &mut self,
        owner_address: &Address,
        accounts: Vec<Address>,
        now_ms: u64,
    )
        ensures
            old(self).open_orders_accounts_cache.wf()
                ==> final(self).open_orders_accounts_cache.wf(),
            same_identity(*old(self), *final(self)),
            same_control_fields(*old(self), *final(self)),
            same_info(final(self).market_info, old(self).market_info),
            final(self).open_orders_accounts_cache.spec_find(owner_address@) matches Some(slot)
                && slot.entry.accounts@ == accounts@ && slot.entry.ts == (match old(
                self,
            ).open_orders_accounts_cache.spec_find(owner_address@) {
                Some(o) => if o.entry.ts >= now_ms {
                    o.entry.ts
                } else {
                    now_ms
                },
                None => now_ms,
            }),
            old(self).open_orders_accounts_cache.spec_find(owner_address@) matches Some(o) ==> (
            final(self).open_orders_accounts_cache.spec_find(owner_address@) matches Some(n)
                && n.entry.ts >= o.entry.ts),
            forall|o: Seq<u8>|
                o != owner_address@ ==> #[trigger] final(self).open_orders_accounts_cache.spec_find(
                    o,
                ) == old(self).open_orders_accounts_cache.spec_find(o),
    {
        self.open_orders_accounts_cache.store(owner_address, accounts, now_ms);
    }

    /// Serves the snapshot sides, then consults the cache for the
    /// trader's own open-orders accounts.  On a miss the caller performs
    /// the remote lookup.
    pub fn load_orders_for_owner(&mut self, now_ms: u64, cache_duration_ms: u64) -> (r:
        CacheLookup)
        ensures
            *final(self) == *old(self),
            r matches CacheLookup::Hit(v) ==> (old(self).open_orders_accounts_cache.spec_find(
                old(self).trader@,
            ) matches Some(slot) && fresh(slot.entry.ts, now_ms, cache_duration_ms) && v@
                == slot.entry.accounts@),
            r matches CacheLookup::Miss ==> (old(self).open_orders_accounts_cache.spec_find(
                old(self).trader@,
            ) matches Some(slot) ==> !fresh(slot.entry.ts, now_ms, cache_duration_ms)),
    {
        let _bids: MarketInfo = self.load_bids();
        let _asks: MarketInfo = self.load_asks();
        let owner: Address = self.trader;
        self.find_open_orders_accounts_for_owner(&owner, now_ms, cache_duration_ms)
    }

    /// Plans a post-only limit bid of one base lot at `max_bid` ticks.
    ///
    /// The zero-price precondition is checked first and fails before
    /// anything else happens -- planning performs no network call by
    /// construction.  The plan carries a random client tag, a quote
    /// budget of one nominal unit plus the fee buffer, an abort-on-self-
    /// trade policy, and an expiry thirty seconds past `now_unix_secs`,
    /// which the caller reads from its clock.
    pub fn place_limit_bid(&self, max_bid: u64, now_unix_secs: u64) -> (r: Result<
        LimitOrderPlan,
        MarketError,
    >)
        requires
            now_unix_secs + BID_EXPIRY_SECS <= i64::MAX,
        ensures
            r is Err <==> max_bid == 0 || self.coin_lot_size == 0,
            r matches Err(e) ==> e == (if max_bid == 0 {
                MarketError::ZeroBidPrice
            } else {
                MarketError::ZeroLotSize
            }),
            r matches Ok(p) ==> {
                &&& p.market == self.market_address
                &&& p.open_orders_account == self.orders_key
                &&& p.request_queue == self.request_queue
                &&& p.event_queue == self.event_queue
                &&& p.market_bids == self.market_info.bids_address
                &&& p.market_asks == self.market_info.asks_address
                &&& p.order_payer == self.usdc_ata
                &&& p.owner == self.trader
                &&& p.coin_vault == self.coin_vault
                &&& p.pc_vault == self.pc_vault
                &&& p.program_id == self.program_id
                &&& p.side == Side::Bid
                &&& p.limit_price == max_bid
                &&& p.max_coin_qty == self.coin_lot_size
                &&& p.order_kind == OrderKind::PostOnly
                &&& p.self_trade_policy == SelfTradePolicy::AbortTransaction
                &&& p.limit == 0xffff
                &&& p.max_native_pc_qty_including_fees == QUOTE_BUDGET_WITH_FEE
                &&& p.expiry_unix_secs == now_unix_secs + BID_EXPIRY_SECS
            },
    {
        if max_bid == 0 {
            return Err(MarketError::ZeroBidPrice);
        }
        if self.coin_lot_size == 0 {
            return Err(MarketError::ZeroLotSize);
        }
        let client_order_id: u64 = rand::random::<u64>();
        let expiry: u64 = now_unix_secs + BID_EXPIRY_SECS;
        Ok(
            LimitOrderPlan {
                market: self.market_address,
                open_orders_account: self.orders_key,
                request_queue: self.request_queue,
                event_queue: self.event_queue,
                market_bids: self.market_info.bids_address,
                market_asks: self.market_info.asks_address,
                order_payer: self.usdc_ata,
                owner: self.trader,
                coin_vault: self.coin_vault,
                pc_vault: self.pc_vault,
                program_id: self.program_id,
                side: Side::Bid,
                limit_price: max_bid,
                max_coin_qty: self.coin_lot_size,
                order_kind: OrderKind::PostOnly,
                client_order_id,
                self_trade_policy: SelfTradePolicy::AbortTransaction,
                limit: 0xffff,
                max_native_pc_qty_including_fees: QUOTE_BUDGET_WITH_FEE,
                expiry_unix_secs: expiry as i64,
            },
        )
    }

    /// Plans the cancel of one resting bid by order id.
    ///
    /// The zero-id precondition fails before anything else happens;
    /// planning performs no network call by construction.
    pub fn cancel_order(&self, order_id: u64) -> (r: Result<CancelOrderPlan, MarketError>)
        ensures
            r is Err <==> order_id == 0,
            r matches Err(e) ==> e == MarketError::ZeroOrderId,
            r matches Ok(p) ==> {
                &&& p.program_id == self.program_id
                &&& p.market == self.market_address
                &&& p.market_bids == self.market_info.bids_address
                &&& p.market_asks == self.market_info.asks_address
                &&& p.open_orders_account == self.orders_key
                &&& p.owner == self.trader
                &&& p.event_queue == self.event_queue
                &&& p.side == Side::Bid
                &&& p.order_id == order_id as u128
            },
    {
        if order_id == 0 {
            return Err(MarketError::ZeroOrderId);
        }
        Ok(
            CancelOrderPlan {
                program_id: self.program_id,
                market: self.market_address,
                market_bids: self.market_info.bids_address,
                market_asks: self.market_info.asks_address,
                open_orders_account: self.orders_key,
                owner: self.trader,
                event_queue: self.event_queue,
                side: Side::Bid,
                order_id: order_id as u128,
            },
        )
    }

    /// Plans the settlement of free balances from the vaults back to the
    /// trader's wallets.  No precondition; never fails.
    pub fn settle_balance(&self) -> (r: SettleBalancePlan)
        ensures
            r.program_id == self.program_id,
            r.market == self.market_address,
            r.open_orders_account == self.orders_key,
            r.owner == self.trader,
            r.coin_vault == self.coin_vault,
            r.coin_wallet == self.wsol_ata,
            r.pc_vault == self.pc_vault,
            r.pc_wallet == self.usdc_ata,
            r.vault_signer == self.vault_signer_key,
    {
        SettleBalancePlan {
            program_id: self.program_id,
            market: self.market_address,
            open_orders_account: self.orders_key,
            owner: self.trader,
            coin_vault: self.coin_vault,
            coin_wallet: self.wsol_ata,
            pc_vault: self.pc_vault,
            pc_wallet: self.usdc_ata,
            vault_signer: self.vault_signer_key,
        }
    }

    /// Plans a request that the program match up to `limit` crossing
    /// orders.
    pub fn make_match_orders_transaction(&self, limit: u16) -> (r: MatchOrdersPlan)
        ensures
            r.program_id == self.program_id,
            r.market == self.market_address,
            r.request_queue == self.request_queue,
            r.market_bids == self.market_info.bids_address,
            r.market_asks == self.market_info.asks_address,
            r.event_queue == self.event_queue,
            r.coin_fee_receivable_account == self.coin_vault,
            r.pc_fee_receivable_account == self.pc_vault,
            r.limit == limit,
    {
        MatchOrdersPlan {
            program_id: self.program_id,
            market: self.market_address,
            request_queue: self.request_queue,
            market_bids: self.market_info.bids_address,
            market_asks: self.market_info.asks_address,
            event_queue: self.event_queue,
            coin_fee_receivable_account: self.coin_vault,
            pc_fee_receivable_account: self.pc_vault,
            limit,
        }
    }

    /// Plans a drain of up to `limit` events from the market's event
    /// queue for the given open-orders accounts.
    pub fn make_consume_events_instruction(
        &self,
        open_orders_accounts: Vec<Address>,
        limit: u16,
    ) -> (r: ConsumeEventsPlan)
        ensures
            r.program_id == self.program_id,
            r.open_orders_accounts@ == open_orders_accounts@,
            r.market == self.market_address,
            r.event_queue == self.event_queue,
            r.coin_fee_receivable_account == self.coin_vault,
            r.pc_fee_receivable_account == self.pc_vault,
            r.limit == limit,
    {
        ConsumeEventsPlan {
            program_id: self.program_id,
            open_orders_accounts,
            market: self.market_address,
            event_queue: self.event_queue,
            coin_fee_receivable_account: self.coin_vault,
            pc_fee_receivable_account: self.pc_vault,
            limit,
        }
    }

    /// Plans a permissioned drain of the event queue.  The authority role
    /// is filled with the event-queue address itself, as the current
    /// design does; a market with a real crank authority would need that
    /// address here instead.
    pub fn make_consume_events_permissioned_instruction(
        &self,
        open_orders_accounts: Vec<Address>,
        limit: u16,
    ) -> (r: ConsumeEventsPermissionedPlan)
        ensures
            r.program_id == self.program_id,
            r.open_orders_accounts@ == open_orders_accounts@,
            r.market == self.market_address,
            r.event_queue == self.event_queue,
            r.consume_events_authority == self.event_queue,
            r.limit == limit,
    {
        ConsumeEventsPermissionedPlan {
            program_id: self.program_id,
            open_orders_accounts,
            market: self.market_address,
            event_queue: self.event_queue,
            consume_events_authority: self.event_queue,
            limit,
        }
    }
}

} // verus!
