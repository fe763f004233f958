//! Accepting an offer: the checks before settlement, and what the trade moves
//! between whom.

use vstd::prelude::*;
use crate::error::ErrorCode;
use crate::state::{Offer, OfferStatus, Pubkey, Receipt};

verus! {

/// Why `acceptor` may not settle `offer`, if so. `seller_held` is the number
/// of units that the seller holds of the offer's stock and `buyer_funds` what
/// the buyer can pay; the seller is the acceptor of a buy offer and the maker
/// of a sell offer. The checks run in this order and the first failure
/// decides. A maker may accept their own offer only where `allow_self_trade`
/// is set.
pub open spec fn settlement_error(
    offer: Offer,
    acceptor: Pubkey,
    seller_held: u64,
    buyer_funds: u64,
    allow_self_trade: bool,
) -> Option<ErrorCode> {
    if !offer.active() {
        Some(ErrorCode::OfferNotActive)
    } else if acceptor == offer.maker && !allow_self_trade {
        Some(ErrorCode::NotAuthorized)
    } else if seller_held < offer.amount {
        Some(ErrorCode::InsufficientStockBalance)
    } else if offer.amount * offer.price > u64::MAX {
        Some(ErrorCode::ArithmeticOverflow)
    } else if buyer_funds < offer.amount * offer.price {
        Some(ErrorCode::InsufficientFunds)
    } else {
        None
    }
}

/// What settling `offer` with `acceptor` moves: the offer's units from the
/// seller to the buyer, and their price in funds the other way.
pub open spec fn receipt_of(offer: Offer, acceptor: Pubkey) -> Receipt {
    Receipt {
        amount: offer.amount,
        price: offer.price,
        buyer: offer.buyer(acceptor),
        seller: offer.seller(acceptor),
        total: (offer.amount * offer.price) as u64,
    }
}

/// The offer after it was settled.
pub open spec fn filled_offer(offer: Offer) -> Offer {
    Offer { status: OfferStatus::Filled, ..offer }
}

/// Checks that `acceptor` may settle `offer` and says what the trade moves.
/// `seller_held` is the number of units that the seller holds of the offer's
/// stock, `buyer_funds` what the buyer can pay. Nothing is changed here.
pub fn handler(
    offer: &Offer,
    acceptor: Pubkey,
    seller_held: u64,
    buyer_funds: u64,
    allow_self_trade: bool,
) -> (r: Result<Receipt, ErrorCode>)
    ensures
        match r {
            Ok(receipt) => settlement_error(*offer, acceptor, seller_held, buyer_funds, allow_self_trade)
                is None && receipt == receipt_of(*offer, acceptor),
            Err(e) => settlement_error(*offer, acceptor, seller_held, buyer_funds, allow_self_trade)
                == Some(e),
        },
{
    if !offer.is_active() {
        return Err(ErrorCode::OfferNotActive);
    }
    if acceptor == offer.maker && !allow_self_trade {
        return Err(ErrorCode::NotAuthorized);
    }
    if seller_held < offer.amount {
        return Err(ErrorCode::InsufficientStockBalance);
    }
    let total = match offer.amount.checked_mul(offer.price) {
        Some(total) => total,
        None => {
            return Err(ErrorCode::ArithmeticOverflow);
        },
    };
    if buyer_funds < total {
        return Err(ErrorCode::InsufficientFunds);
    }
    let (buyer, seller) = if offer.is_buy {
        (offer.maker, acceptor)
    } else {
        (acceptor, offer.maker)
    };
    Ok(Receipt { amount: offer.amount, price: offer.price, buyer, seller, total })
}

} // verus!
