//! Opening an offer: the checks on its terms and the record that results.

use vstd::prelude::*;
use crate::error::ErrorCode;
use crate::state::{Offer, OfferStatus, Pubkey, StockId};

verus! {

/// Why an offer on these terms is refused, if it is. `held` is the number of
/// units that the maker holds of the stock, or `None` where no such stock is
/// on record. The checks run in this order and the first failure decides; a
/// buy offer needs no holding.
pub open spec fn offer_error(is_buy: bool, amount: u64, price: u64, held: Option<u64>) -> Option<
    ErrorCode,
> {
    if amount == 0 {
        Some(ErrorCode::InvalidSupply)
    } else if price == 0 {
        Some(ErrorCode::InvalidPrice)
    } else if held is None {
        Some(ErrorCode::RecordNotFound)
    } else if !is_buy && held->0 < amount {
        Some(ErrorCode::InsufficientStockBalance)
    } else {
        None
    }
}

/// The record of an offer as it is opened.
pub open spec fn opened_offer(
    maker: Pubkey,
    stock: StockId,
    is_buy: bool,
    amount: u64,
    price: u64,
) -> Offer {
    Offer { is_buy, maker, stock, amount, price, status: OfferStatus::Active }
}

/// Checks the terms of a new offer and makes its record, active. `held` is
/// the number of units that `maker` holds of `stock`, or `None` where no such
/// stock is on record. Nothing is reserved: the holding is tested again when
/// the offer is accepted.
pub fn handler(
    maker: Pubkey,
    stock: StockId,
    is_buy: bool,
    amount: u64,
    price: u64,
    held: Option<u64>,
) -> (r: Result<Offer, ErrorCode>)
    ensures
        match r {
            Ok(offer) => offer_error(is_buy, amount, price, held) is None && offer == opened_offer(
                maker,
                stock,
                is_buy,
                amount,
                price,
            ),
            Err(e) => offer_error(is_buy, amount, price, held) == Some(e),
        },
{
    if amount == 0 {
        return Err(ErrorCode::InvalidSupply);
    }
    if price == 0 {
        return Err(ErrorCode::InvalidPrice);
    }
    match held {
        None => Err(ErrorCode::RecordNotFound),
        Some(units) => {
            if !is_buy && units < amount {
                Err(ErrorCode::InsufficientStockBalance)
            } else {
                Ok(Offer { is_buy, maker, stock, amount, price, status: OfferStatus::Active })
            }
        },
    }
}

} // verus!
