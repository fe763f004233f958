//! Minting a stock: the checks on its terms and the record that results.

use vstd::prelude::*;
use vstd::string::StrSliceExecFns;
use crate::error::ErrorCode;
use crate::state::{Pubkey, Stock, StockView};

verus! {

/// The most characters a stock's name may have.
pub const MAX_NAME_LEN: usize = 32;

/// The most characters a stock's symbol may have.
pub const MAX_SYMBOL_LEN: usize = 12;

/// Why a mint on these terms is refused, if it is. The checks run in this
/// order and the first failure decides.
pub open spec fn mint_error(
    name: Seq<char>,
    symbol: Seq<char>,
    total_supply: u64,
    current_price: u64,
) -> Option<ErrorCode> {
    if name.len() > MAX_NAME_LEN {
        Some(ErrorCode::NameTooLong)
    } else if symbol.len() > MAX_SYMBOL_LEN {
        Some(ErrorCode::SymbolTooLong)
    } else if total_supply == 0 {
        Some(ErrorCode::InvalidSupply)
    } else if current_price == 0 {
        Some(ErrorCode::InvalidPrice)
    } else {
        None
    }
}

/// The record of a stock as it is minted: the whole supply is available.
pub open spec fn minted_stock(
    name: Seq<char>,
    symbol: Seq<char>,
    total_supply: u64,
    current_price: u64,
    authority: Pubkey,
) -> StockView {
    StockView {
        name,
        symbol,
        total_supply,
        available_supply: total_supply,
        current_price,
        authority,
    }
}

/// Checks the terms of a new stock and makes its record, with the whole
/// supply available and `authority` as its minter.
pub fn handler(
    name: String,
    symbol: String,
    total_supply: u64,
    current_price: u64,
    authority: Pubkey,
) -> (r: Result<Stock, ErrorCode>)
    ensures
        match r {
            Ok(stock) => mint_error(name@, symbol@, total_supply, current_price) is None && stock@
                == minted_stock(name@, symbol@, total_supply, current_price, authority),
            Err(e) => mint_error(name@, symbol@, total_supply, current_price) == Some(e),
        },
{
    if name.as_str().unicode_len() > MAX_NAME_LEN {
        return Err(ErrorCode::NameTooLong);
    }
    if symbol.as_str().unicode_len() > MAX_SYMBOL_LEN {
        return Err(ErrorCode::SymbolTooLong);
    }
    if total_supply == 0 {
        return Err(ErrorCode::InvalidSupply);
    }
    if current_price == 0 {
        return Err(ErrorCode::InvalidPrice);
    }
    Ok(
        Stock {
            name,
            symbol,
            total_supply,
            available_supply: total_supply,
            current_price,
            authority,
        },
    )
}

} // verus!
