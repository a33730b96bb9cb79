//! The failure conditions the library reports.

use vstd::prelude::*;

verus! {

/// Why a decode or an order operation failed.
///
/// Remote-transport failures are not listed here: the library never performs
/// I/O, so those stay with the surrounding application.
#[derive(Clone, Copy, Debug, PartialEq, Eq, Structural)]
pub enum MarketError {
    /// The fetched account's owner program is not the expected program.
    OwnershipMismatch,
    /// An account buffer has a length the format does not allow.
    WrongDataLength,
    /// An account buffer does not carry the head and tail padding marks.
    BadPadding,
    /// An account's flag word is not the one its role requires.
    BadAccountFlags,
    /// An order-book tree whose nodes contradict its header, or a resting
    /// order with a zero price.
    MalformedOrderBook,
    /// A limit bid was requested with a zero price.
    ZeroBidPrice,
    /// A cancel was requested for order id zero.
    ZeroOrderId,
    /// An order was requested while the market's base lot size is zero.
    ZeroLotSize,
}

} // verus!
