//! The market's on-chain control block: the account that names the vaults,
//! the queues and the two order-book trees, and fixes the lot sizes.
//!
//! On the ledger the block is a 376-byte packed record between the account
//! framing marks.  Only the fields the client reads are decoded here.

use vstd::prelude::*;

use crate::address::{read_address, Address};
use crate::error::MarketError;
use crate::framing::{check_padding, padding_ok};
use crate::little_endian::{bytes_at, le_u64_at, read_u64_le};

verus! {

/// Flag word of a market control account: initialized, market.
pub const MARKET_ACCOUNT_FLAGS: u64 = 3;

/// Exact byte length of a market control account.
pub const MARKET_ACCOUNT_LEN: usize = 388;

/// The decoded fields of a market control block.
#[derive(Clone, Copy, Debug)]
pub struct MarketControl {
    /// The account's flag word.
    pub account_flags: u64,
    /// Vault holding the pooled base currency.
    pub coin_vault: Address,
    /// Vault holding the pooled quote currency.
    pub pc_vault: Address,
    /// The market's request queue account.
    pub req_q: Address,
    /// The market's event queue account.
    pub event_q: Address,
    /// The bid-side order-book tree account.
    pub bids: Address,
    /// The ask-side order-book tree account.
    pub asks: Address,
    /// Minimum tradeable increment of the base currency.
    pub coin_lot_size: u64,
    /// Minimum tradeable increment of the quote currency.
    pub pc_lot_size: u64,
}

/// A market control account is well formed when it is framed, exactly one
/// record long, and flagged as an initialized market.
pub open spec fn market_data_well_formed(data: Seq<u8>) -> bool {
    &&& padding_ok(data)
    &&& data.len() == 388
    &&& le_u64_at(data, 5) == MARKET_ACCOUNT_FLAGS
}

/// The error a malformed market control account decodes to.
pub open spec fn market_decode_error(data: Seq<u8>) -> MarketError {
    if data.len() < 12 {
        MarketError::WrongDataLength
    } else if !padding_ok(data) {
        MarketError::BadPadding
    } else if data.len() != 388 {
        MarketError::WrongDataLength
    } else {
        MarketError::BadAccountFlags
    }
}

/// The decoded fields are the ones the buffer holds.
pub open spec fn control_matches(c: MarketControl, data: Seq<u8>) -> bool {
    &&& c.account_flags as nat == le_u64_at(data, 5)
    &&& c.coin_vault@ == bytes_at(data, 117, 32)
    &&& c.pc_vault@ == bytes_at(data, 165, 32)
    &&& c.req_q@ == bytes_at(data, 221, 32)
    &&& c.event_q@ == bytes_at(data, 253, 32)
    &&& c.bids@ == bytes_at(data, 285, 32)
    &&& c.asks@ == bytes_at(data, 317, 32)
    &&& c.coin_lot_size as nat == le_u64_at(data, 349)
    &&& c.pc_lot_size as nat == le_u64_at(data, 357)
}

/// Decodes a market control account buffer.
///
/// Succeeds exactly on well-formed buffers; a buffer owned by the wrong
/// program never reaches this point (the ownership check sits above).
pub fn decode_market_control(data: &Vec<u8>) -> (r: Result<MarketControl, MarketError>)
    ensures
        r is Ok <==> market_data_well_formed(data@),
        r matches Ok(c) ==> control_matches(c, data@),
        r matches Err(e) ==> e == market_decode_error(data@),
{
    let len: usize = data.len();
    if len < 12 {
        return Err(MarketError::WrongDataLength);
    }
    if !check_padding(data) {
        return Err(MarketError::BadPadding);
    }
    if len != MARKET_ACCOUNT_LEN {
        return Err(MarketError::WrongDataLength);
    }
    let account_flags: u64 = read_u64_le(data, 5);
    if account_flags != MARKET_ACCOUNT_FLAGS {
        return Err(MarketError::BadAccountFlags);
    }
    Ok(
        MarketControl {
            account_flags,
            coin_vault: read_address(data, 117),
            pc_vault: read_address(data, 165),
            req_q: read_address(data, 221),
            event_q: read_address(data, 253),
            bids: read_address(data, 285),
            asks: read_address(data, 317),
            coin_lot_size: read_u64_le(data, 349),
            pc_lot_size: read_u64_le(data, 357),
        },
    )
}

} // verus!
