//! The records of the exchange and their mathematical views.

use vstd::prelude::*;

verus! {

/// Identifies a stock: its place in the stock table.
pub type StockId = u64;

/// Identifies an offer: its place in the offer table.
pub type OfferId = u64;

/// A participant's identity: the 32 bytes of a public key.
#[derive(Clone, Copy, Debug)]
pub struct Pubkey {
    pub bytes: [u8; 32],
}

impl Pubkey {
    /// The identity made of the given bytes.
    pub fn new(bytes: [u8; 32]) -> (key: Pubkey)
        ensures
            key.bytes == bytes,
    {
        Pubkey { bytes }
    }

    /// The bytes of the identity.
    pub fn to_bytes(&self) -> (bytes: [u8; 32])
        ensures
            bytes == self.bytes,
    {
        self.bytes
    }
}

impl PartialEq for Pubkey {
    fn eq(&self, other: &Pubkey) -> (r: bool) {
        let mut i: usize = 0;
        while i < 32
            invariant
                i <= 32,
                forall|j: int| 0 <= j < i ==> self.bytes[j] == other.bytes[j],
            decreases 32 - i,
        {
            if self.bytes[i] != other.bytes[i] {
                return false;
            }
            i += 1;
        }
        assert(self.bytes =~= other.bytes);
        true
    }
}

impl Eq for Pubkey {

}

impl vstd::std_specs::cmp::PartialEqSpecImpl for Pubkey {
    open spec fn obeys_eq_spec() -> bool {
        true
    }

    open spec fn eq_spec(&self, other: &Pubkey) -> bool {
        self.bytes == other.bytes
    }
}

/// A tradable instrument with a supply fixed at mint.
#[derive(Debug, PartialEq, Eq)]
pub struct Stock {
    pub name: String,
    pub symbol: String,
    /// Units in existence, fixed at mint.
    pub total_supply: u64,
    /// Units never yet issued into any position.
    pub available_supply: u64,
    /// The price of the last trade, or the price given at mint.
    pub current_price: u64,
    /// The identity that minted the stock.
    pub authority: Pubkey,
}

/// What a `Stock` holds, with its texts as sequences of characters.
pub struct StockView {
    pub name: Seq<char>,
    pub symbol: Seq<char>,
    pub total_supply: u64,
    pub available_supply: u64,
    pub current_price: u64,
    pub authority: Pubkey,
}

impl View for Stock {
    type V = StockView;

    open spec fn view(&self) -> StockView {
        StockView {
            name: self.name@,
            symbol: self.symbol@,
            total_supply: self.total_supply,
            available_supply: self.available_supply,
            current_price: self.current_price,
            authority: self.authority,
        }
    }
}

impl Clone for Stock {
    fn clone(&self) -> (copy: Stock)
        ensures
            copy@ == self@,
    {
        Stock {
            name: self.name.clone(),
            symbol: self.symbol.clone(),
            total_supply: self.total_supply,
            available_supply: self.available_supply,
            current_price: self.current_price,
            authority: self.authority,
        }
    }
}

/// One participant's holding of one stock.
#[derive(Clone, Copy, Debug, PartialEq, Eq)]
pub struct StockPosition {
    pub owner: Pubkey,
    pub stock: StockId,
    /// Units held.
    pub amount: u64,
    /// Volume-weighted average price paid for the units held.
    pub entry_price: u64,
}

/// Where an offer stands in its life. `Filled` and `Cancelled` are final.
#[derive(Clone, Copy, Debug, PartialEq, Eq, Structural)]
pub enum OfferStatus {
    Active,
    Filled,
    Cancelled,
}

/// A standing intent to buy or sell units of one stock at a price per unit.
#[derive(Clone, Copy, Debug, PartialEq, Eq)]
pub struct Offer {
    /// `true` when the maker wants to buy, `false` when the maker sells.
    pub is_buy: bool,
    pub maker: Pubkey,
    pub stock: StockId,
    pub amount: u64,
    pub price: u64,
    pub status: OfferStatus,
}

impl Offer {
    /// Whether the offer can still be accepted or cancelled.
    pub open spec fn active(&self) -> bool {
        self.status == OfferStatus::Active
    }

    /// Whether the offer can still be accepted or cancelled.
    #[verifier::when_used_as_spec(active)]
    pub fn is_active(&self) -> (r: bool)
        ensures
            r == self.active(),
    {
        match self.status {
            OfferStatus::Active => true,
            _ => false,
        }
    }

    /// The party that gives up units when `acceptor` accepts the offer.
    pub open spec fn seller(&self, acceptor: Pubkey) -> Pubkey {
        if self.is_buy {
            acceptor
        } else {
            self.maker
        }
    }

    /// The party that pays when `acceptor` accepts the offer.
    pub open spec fn buyer(&self, acceptor: Pubkey) -> Pubkey {
        if self.is_buy {
            self.maker
        } else {
            acceptor
        }
    }
}

/// Counters over the whole market.
#[derive(Clone, Copy, Debug, PartialEq, Eq)]
pub struct MarketStats {
    /// Stocks minted so far.
    pub total_stocks: u64,
    /// Funds moved by all settled trades.
    pub total_volume_24h: u64,
    /// Trades settled so far.
    pub total_transactions: u64,
    /// The stock with the highest price at the last settled trade.
    pub highest_valued_stock: Option<StockId>,
    /// The stock with the largest traded volume at the last settled trade.
    pub most_traded_stock: Option<StockId>,
}

/// What a settled trade moved, and between whom.
#[derive(Clone, Copy, Debug, PartialEq, Eq)]
pub struct Receipt {
    /// Units that went from the seller to the buyer.
    pub amount: u64,
    /// Price per unit.
    pub price: u64,
    pub buyer: Pubkey,
    pub seller: Pubkey,
    /// Funds owed by the buyer to the seller: `amount * price`.
    pub total: u64,
}

} // verus!
