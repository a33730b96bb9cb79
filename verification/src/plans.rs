//! Fully-determined instruction plans for the order lifecycle.
//!
//! Each mutating operation of the market is planned here as a plain value:
//! every account address and every numeric parameter of the one instruction
//! the operation sends.  The surrounding application encodes the plan with
//! the exchange program's instruction builder, wraps it in a transaction,
//! signs and submits it; nothing in a plan depends on the transport.

use vstd::prelude::*;

use crate::address::Address;

verus! {

/// Which side of the book an order stands on.
#[derive(Clone, Copy, Debug, PartialEq, Eq, Structural)]
pub enum Side {
    Bid,
    Ask,
}

/// How an order may take liquidity.
#[derive(Clone, Copy, Debug, PartialEq, Eq, Structural)]
pub enum OrderKind {
    /// Rests or takes at the limit price.
    Limit,
    /// Takes immediately or is cancelled.
    ImmediateOrCancel,
    /// Only rests; never takes.
    PostOnly,
}

/// What the program does when an order would match the owner's own order.
#[derive(Clone, Copy, Debug, PartialEq, Eq, Structural)]
pub enum SelfTradePolicy {
    DecrementTake,
    CancelProvide,
    /// Abort the whole transaction rather than self-match.
    AbortTransaction,
}

/// One planned limit order.
#[derive(Clone, Copy, Debug)]
pub struct LimitOrderPlan {
    pub market: Address,
    pub open_orders_account: Address,
    pub request_queue: Address,
    pub event_queue: Address,
    pub market_bids: Address,
    pub market_asks: Address,
    /// The token account the order is paid from.
    pub order_payer: Address,
    /// The wallet that owns the open-orders account and signs.
    pub owner: Address,
    pub coin_vault: Address,
    pub pc_vault: Address,
    pub program_id: Address,
    pub side: Side,
    /// Limit price in raw ticks; never zero.
    pub limit_price: u64,
    /// Base quantity in lots; never zero.
    pub max_coin_qty: u64,
    pub order_kind: OrderKind,
    /// Client-chosen random tag for idempotent identification.
    pub client_order_id: u64,
    pub self_trade_policy: SelfTradePolicy,
    /// Bound on matching work requested of the program.
    pub limit: u16,
    /// Quote budget in native units, fees included; never zero.
    pub max_native_pc_qty_including_fees: u64,
    /// Unix second after which the program drops the order.
    pub expiry_unix_secs: i64,
}

/// One planned cancel of a resting order.
#[derive(Clone, Copy, Debug)]
pub struct CancelOrderPlan {
    pub program_id: Address,
    pub market: Address,
    pub market_bids: Address,
    pub market_asks: Address,
    pub open_orders_account: Address,
    pub owner: Address,
    pub event_queue: Address,
    pub side: Side,
    /// The resting order to cancel; never zero.
    pub order_id: u128,
}

/// One planned settlement of free balances back to the owner's wallets.
#[derive(Clone, Copy, Debug)]
pub struct SettleBalancePlan {
    pub program_id: Address,
    pub market: Address,
    pub open_orders_account: Address,
    pub owner: Address,
    pub coin_vault: Address,
    /// The owner's wallet receiving base currency.
    pub coin_wallet: Address,
    pub pc_vault: Address,
    /// The owner's wallet receiving quote currency.
    pub pc_wallet: Address,
    pub vault_signer: Address,
}

/// One planned request that the program match crossing orders.
#[derive(Clone, Copy, Debug)]
pub struct MatchOrdersPlan {
    pub program_id: Address,
    pub market: Address,
    pub request_queue: Address,
    pub market_bids: Address,
    pub market_asks: Address,
    pub event_queue: Address,
    pub coin_fee_receivable_account: Address,
    pub pc_fee_receivable_account: Address,
    /// Bound on the number of matches.
    pub limit: u16,
}

/// One planned drain of the market's event queue.
#[derive(Debug)]
pub struct ConsumeEventsPlan {
    pub program_id: Address,
    /// The open-orders accounts whose events are consumed.
    pub open_orders_accounts: Vec<Address>,
    pub market: Address,
    pub event_queue: Address,
    pub coin_fee_receivable_account: Address,
    pub pc_fee_receivable_account: Address,
    /// Bound on the number of events.
    pub limit: u16,
}

/// One planned permissioned drain of the market's event queue.
#[derive(Debug)]
pub struct ConsumeEventsPermissionedPlan {
    pub program_id: Address,
    /// The open-orders accounts whose events are consumed.
    pub open_orders_accounts: Vec<Address>,
    pub market: Address,
    pub event_queue: Address,
    /// The authority that signs the drain.  The current design hands the
    /// event-queue address itself to this role; a distinct crank authority
    /// would go here.
    pub consume_events_authority: Address,
    pub limit: u16,
}

} // verus!
