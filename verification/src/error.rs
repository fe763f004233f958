//! The failure kinds of the exchange.

use vstd::prelude::*;

verus! {

/// Why an operation was refused. Every failed precondition maps to exactly one kind.
#[derive(Clone, Copy, Debug, PartialEq, Eq, Structural)]
pub enum ErrorCode {
    /// The stock name is longer than 32 characters.
    NameTooLong,
    /// The stock symbol is longer than 12 characters.
    SymbolTooLong,
    /// A supply or an amount of units is zero.
    InvalidSupply,
    /// A price is zero.
    InvalidPrice,
    /// The seller holds fewer units than the trade needs.
    InsufficientStockBalance,
    /// The buyer's funds do not cover the trade.
    InsufficientFunds,
    /// The offer does not exist or has already been filled or cancelled.
    OfferNotActive,
    /// The caller may not perform the operation.
    NotAuthorized,
    /// A product or a running total does not fit in 64 bits.
    ArithmeticOverflow,
    /// The record that the operation names does not exist.
    RecordNotFound,
    /// The record that the operation would make exists already.
    RecordExists,
}

impl ErrorCode {
    /// The text that goes with each kind.
    pub open spec fn text(self) -> Seq<char> {
        match self {
            ErrorCode::NameTooLong => "Name must be less than 32 characters"@,
            ErrorCode::SymbolTooLong => "Symbol must be less than 12 characters"@,
            ErrorCode::InvalidSupply => "Total supply must be greater than 0"@,
            ErrorCode::InvalidPrice => "Price must be greater than 0"@,
            ErrorCode::InsufficientStockBalance => "Insufficient stock balance"@,
            ErrorCode::InsufficientFunds => "Insufficient funds"@,
            ErrorCode::OfferNotActive => "Offer not active"@,
            ErrorCode::NotAuthorized => "Not authorized"@,
            ErrorCode::ArithmeticOverflow => "Arithmetic overflow"@,
            ErrorCode::RecordNotFound => "Record not found"@,
            ErrorCode::RecordExists => "Record already exists"@,
        }
    }

    /// The text that goes with the kind, for a reader.
    pub fn message(&self) -> (text: &'static str)
        ensures
            text@ == self.text(),
    {
        match self {
            ErrorCode::NameTooLong => "Name must be less than 32 characters",
            ErrorCode::SymbolTooLong => "Symbol must be less than 12 characters",
            ErrorCode::InvalidSupply => "Total supply must be greater than 0",
            ErrorCode::InvalidPrice => "Price must be greater than 0",
            ErrorCode::InsufficientStockBalance => "Insufficient stock balance",
            ErrorCode::InsufficientFunds => "Insufficient funds",
            ErrorCode::OfferNotActive => "Offer not active",
            ErrorCode::NotAuthorized => "Not authorized",
            ErrorCode::ArithmeticOverflow => "Arithmetic overflow",
            ErrorCode::RecordNotFound => "Record not found",
            ErrorCode::RecordExists => "Record already exists",
        }
    }
}

} // verus!
