//! The exchange as a mathematical value: the four record tables, what makes
//! them consistent, and what each operation does to them.

use vstd::prelude::*;
use crate::error::ErrorCode;
use crate::instructions::accept_offer::{filled_offer, settlement_error};
use crate::instructions::cancel_offer::{cancel_error, cancelled_offer};
use crate::instructions::create_offer::offer_error;
use crate::instructions::create_stock::{mint_error, MAX_NAME_LEN, MAX_SYMBOL_LEN};
use crate::positions::{
    amount_held,
    credited,
    debited,
    held_total,
    lemma_amount_held_bound,
    lemma_credited,
    lemma_debited,
    lemma_held_total_absent,
    unique_positions,
};
use crate::state::{MarketStats, Offer, OfferId, Pubkey, Stock, StockId, StockPosition, StockView};
use crate::stats::{after_mint, after_trade, initial_stats, lemma_leader_is_leader, ranked, trade_fits};

verus! {

/// Whether a stock record is one that a mint and later trades can have made.
pub open spec fn valid_stock(stock: StockView) -> bool {
    &&& stock.name.len() <= MAX_NAME_LEN
    &&& stock.symbol.len() <= MAX_SYMBOL_LEN
    &&& stock.total_supply > 0
    &&& stock.current_price > 0
    &&& stock.available_supply <= stock.total_supply
}

/// Whether `stock` was minted by `authority` under `symbol`.
pub open spec fn is_stock_of(stock: StockView, authority: Pubkey, symbol: Seq<char>) -> bool {
    stock.authority == authority && stock.symbol == symbol
}

/// Whether `authority` has minted a stock under `symbol`.
pub open spec fn has_stock(stocks: Seq<StockView>, authority: Pubkey, symbol: Seq<char>) -> bool {
    exists|s: int| 0 <= s < stocks.len() && is_stock_of(#[trigger] stocks[s], authority, symbol)
}

/// No authority has two stocks under one symbol.
pub open spec fn stocks_distinct(stocks: Seq<StockView>) -> bool {
    forall|s: int, t: int|
        0 <= s < t < stocks.len() ==> !is_stock_of(
            #[trigger] stocks[s],
            (#[trigger] stocks[t]).authority,
            stocks[t].symbol,
        )
}

/// Whether an offer record is one that opening an offer can have made.
pub open spec fn valid_offer(offer: Offer) -> bool {
    offer.amount > 0 && offer.price > 0
}

/// The views of the stock records, in their order.
pub open spec fn stock_views(stocks: Seq<Stock>) -> Seq<StockView> {
    Seq::new(stocks.len(), |i: int| stocks[i]@)
}

/// The current price of every stock, each at the place of its identifier.
pub open spec fn prices(stocks: Seq<StockView>) -> Seq<u64> {
    Seq::new(stocks.len(), |i: int| stocks[i].current_price)
}

/// Every stock record is valid.
pub open spec fn stocks_valid(stocks: Seq<StockView>) -> bool {
    forall|s: int| 0 <= s < stocks.len() ==> valid_stock(#[trigger] stocks[s])
}

/// For every stock, the units held over all owners and the units still
/// available make up the total supply.
pub open spec fn units_conserved(stocks: Seq<StockView>, positions: Seq<StockPosition>) -> bool {
    forall|s: StockId|
        s < stocks.len() ==> #[trigger] held_total(positions, s) + stocks[s as int].available_supply
            == stocks[s as int].total_supply
}

/// Every position is in one of the first `count` stocks.
pub open spec fn positions_known(positions: Seq<StockPosition>, count: nat) -> bool {
    forall|i: int| 0 <= i < positions.len() ==> (#[trigger] positions[i]).stock < count
}

/// Every offer record is valid and names one of the first `count` stocks.
pub open spec fn offers_valid(offers: Seq<Offer>, count: nat) -> bool {
    forall|i: int|
        0 <= i < offers.len() ==> valid_offer(#[trigger] offers[i]) && offers[i].stock < count
}

/// No stock has traded more than the market in all.
pub open spec fn volumes_counted(traded: Seq<u64>, total: u64) -> bool {
    forall|s: int| 0 <= s < traded.len() ==> #[trigger] traded[s] <= total
}

/// The state of the exchange.
pub struct ExchangeView {
    /// The stocks; a stock's identifier is its place here.
    pub stocks: Seq<StockView>,
    /// The funds moved by the settled trades of each stock.
    pub traded: Seq<u64>,
    /// The positions, one record at most for an owner and a stock.
    pub positions: Seq<StockPosition>,
    /// The offers; an offer's identifier is its place here.
    pub offers: Seq<Offer>,
    /// The market statistics.
    pub stats: MarketStats,
    /// Whether a maker may accept their own offer.
    pub allow_self_trade: bool,
}

impl ExchangeView {
    /// An exchange without records.
    pub open spec fn empty(allow_self_trade: bool) -> ExchangeView {
        ExchangeView {
            stocks: Seq::empty(),
            traded: Seq::empty(),
            positions: Seq::empty(),
            offers: Seq::empty(),
            stats: initial_stats(),
            allow_self_trade,
        }
    }

    /// What holds of the exchange in every state that its operations reach.
    /// For every stock, the units held over all owners and the units still
    /// available make up the total supply.
    pub open spec fn wf(self) -> bool {
        &&& self.stocks.len() <= u64::MAX
        &&& self.offers.len() <= u64::MAX
        &&& self.traded.len() == self.stocks.len()
        &&& self.stats.total_stocks == self.stocks.len()
        &&& stocks_valid(self.stocks)
        &&& stocks_distinct(self.stocks)
        &&& units_conserved(self.stocks, self.positions)
        &&& unique_positions(self.positions)
        &&& positions_known(self.positions, self.stocks.len())
        &&& offers_valid(self.offers, self.stocks.len())
        &&& volumes_counted(self.traded, self.stats.total_volume_24h)
        &&& self.stats.highest_valued_stock matches Some(s) ==> s < self.stocks.len()
        &&& self.stats.most_traded_stock matches Some(s) ==> s < self.stocks.len()
    }

    /// Why a mint on these terms is refused, if it is. After the checks on the
    /// terms themselves, the authority must not have a stock under the symbol
    /// already.
    pub open spec fn mint_error(
        self,
        name: Seq<char>,
        symbol: Seq<char>,
        total_supply: u64,
        current_price: u64,
        authority: Pubkey,
    ) -> Option<ErrorCode> {
        match mint_error(name, symbol, total_supply, current_price) {
            Some(e) => Some(e),
            None => if has_stock(self.stocks, authority, symbol) {
                Some(ErrorCode::RecordExists)
            } else {
                None
            },
        }
    }

    /// The exchange after `stock` was minted: the record is new, nothing was
    /// traded of it yet, and the statistics count one stock more.
    pub open spec fn minted(self, stock: StockView) -> ExchangeView {
        ExchangeView {
            stocks: self.stocks.push(stock),
            traded: self.traded.push(0),
            stats: after_mint(self.stats),
            ..self
        }
    }

    /// Why `caller` may not issue `amount` units of `stock`, if so. Only the
    /// stock's authority issues units, and only units that are still
    /// available. The checks run in this order and the first failure decides.
    pub open spec fn allocate_error(self, caller: Pubkey, stock: StockId, amount: u64) -> Option<
        ErrorCode,
    > {
        if stock >= self.stocks.len() {
            Some(ErrorCode::RecordNotFound)
        } else if caller != self.stocks[stock as int].authority {
            Some(ErrorCode::NotAuthorized)
        } else if amount == 0 {
            Some(ErrorCode::InvalidSupply)
        } else if amount > self.stocks[stock as int].available_supply {
            Some(ErrorCode::InsufficientStockBalance)
        } else {
            None
        }
    }

    /// The exchange after `amount` available units of `stock` were issued to
    /// `owner` at the stock's current price.
    pub open spec fn allocated(self, stock: StockId, owner: Pubkey, amount: u64) -> ExchangeView {
        let record = self.stocks[stock as int];
        ExchangeView {
            stocks: self.stocks.update(
                stock as int,
                StockView { available_supply: (record.available_supply - amount) as u64, ..record },
            ),
            positions: credited(self.positions, owner, stock, amount, record.current_price),
            ..self
        }
    }

    /// Why `maker` may not open an offer on these terms, if so.
    pub open spec fn open_error(
        self,
        maker: Pubkey,
        stock: StockId,
        is_buy: bool,
        amount: u64,
        price: u64,
    ) -> Option<ErrorCode> {
        offer_error(
            is_buy,
            amount,
            price,
            if stock < self.stocks.len() {
                Some(amount_held(self.positions, maker, stock))
            } else {
                None
            },
        )
    }

    /// The exchange after `offer` was opened.
    pub open spec fn opened(self, offer: Offer) -> ExchangeView {
        ExchangeView { offers: self.offers.push(offer), ..self }
    }

    /// Why `caller` may not cancel `offer`, if so. An offer that is not on
    /// record is not active.
    pub open spec fn cancel_error(self, offer: OfferId, caller: Pubkey) -> Option<ErrorCode> {
        if offer >= self.offers.len() {
            Some(ErrorCode::OfferNotActive)
        } else {
            cancel_error(self.offers[offer as int], caller)
        }
    }

    /// The exchange after `offer` was cancelled.
    pub open spec fn cancelled(self, offer: OfferId) -> ExchangeView {
        ExchangeView {
            offers: self.offers.update(offer as int, cancelled_offer(self.offers[offer as int])),
            ..self
        }
    }

    /// Why `acceptor` may not settle `offer`, if so, where the buyer can pay
    /// `buyer_funds`. An offer that is not on record is not active. After the
    /// checks on the two parties, a trade must still fit the counters of the
    /// statistics.
    pub open spec fn accept_error(self, offer: OfferId, acceptor: Pubkey, buyer_funds: u64) -> Option<
        ErrorCode,
    > {
        if offer >= self.offers.len() {
            Some(ErrorCode::OfferNotActive)
        } else {
            let record = self.offers[offer as int];
            let seller_held = amount_held(self.positions, record.seller(acceptor), record.stock);
            match settlement_error(record, acceptor, seller_held, buyer_funds, self.allow_self_trade) {
                Some(e) => Some(e),
                None => if acceptor != record.maker && !trade_fits(
                    self.stats,
                    (record.amount * record.price) as u64,
                ) {
                    Some(ErrorCode::ArithmeticOverflow)
                } else {
                    None
                },
            }
        }
    }

    /// The exchange after `acceptor` settled `offer`. The offer is filled.
    /// Between two parties the units go from the seller to the buyer, the
    /// stock takes the offer's price, and the statistics count the trade and
    /// take their rankings anew. A maker who accepts their own offer moves
    /// nothing: only the offer changes.
    pub open spec fn accepted(self, offer: OfferId, acceptor: Pubkey) -> ExchangeView {
        let record = self.offers[offer as int];
        let offers = self.offers.update(offer as int, filled_offer(record));
        if acceptor == record.maker {
            ExchangeView { offers, ..self }
        } else {
            let place = record.stock as int;
            let total = (record.amount * record.price) as u64;
            let stocks = self.stocks.update(
                place,
                StockView { current_price: record.price, ..self.stocks[place] },
            );
            let traded = self.traded.update(place, (self.traded[place] + total) as u64);
            ExchangeView {
                stocks,
                traded,
                positions: credited(
                    debited(self.positions, record.seller(acceptor), record.stock, record.amount),
                    record.buyer(acceptor),
                    record.stock,
                    record.amount,
                    record.price,
                ),
                offers,
                stats: ranked(after_trade(self.stats, total), prices(stocks), traded),
                allow_self_trade: self.allow_self_trade,
            }
        }
    }
}

/// Minting keeps the exchange consistent.
pub proof fn lemma_minted_wf(v: ExchangeView, stock: StockView)
    requires
        v.wf(),
        v.stocks.len() < u64::MAX,
        valid_stock(stock),
        stock.available_supply == stock.total_supply,
        !has_stock(v.stocks, stock.authority, stock.symbol),
    ensures
        v.minted(stock).wf(),
{
    let w = v.minted(stock);
    assert forall|s: int, t: int| 0 <= s < t < w.stocks.len() implies !is_stock_of(
        #[trigger] w.stocks[s],
        (#[trigger] w.stocks[t]).authority,
        w.stocks[t].symbol,
    ) by {
        if t < v.stocks.len() {
            assert(!is_stock_of(v.stocks[s], v.stocks[t].authority, v.stocks[t].symbol));
        } else {
            assert(!is_stock_of(v.stocks[s], stock.authority, stock.symbol));
        }
    }
    assert forall|s: StockId| s < w.stocks.len() implies #[trigger] held_total(w.positions, s)
        + w.stocks[s as int].available_supply == w.stocks[s as int].total_supply by {
        if s < v.stocks.len() {
            assert(w.stocks[s as int] == v.stocks[s as int]);
        } else {
            lemma_held_total_absent(v.positions, s);
        }
    }
    assert forall|s: int| 0 <= s < w.traded.len() implies #[trigger] w.traded[s]
        <= w.stats.total_volume_24h by {
        if s < v.traded.len() {
            assert(w.traded[s] == v.traded[s]);
        }
    }
}

/// Issuing available units keeps the exchange consistent.
pub proof fn lemma_allocated_wf(v: ExchangeView, caller: Pubkey, stock: StockId, owner: Pubkey, amount: u64)
    requires
        v.wf(),
        v.allocate_error(caller, stock, amount) is None,
    ensures
        v.allocated(stock, owner, amount).wf(),
{
    let w = v.allocated(stock, owner, amount);
    let price = v.stocks[stock as int].current_price;
    assert(held_total(v.positions, stock) + v.stocks[stock as int].available_supply
        == v.stocks[stock as int].total_supply);
    lemma_amount_held_bound(v.positions, owner, stock);
    lemma_credited(v.positions, owner, stock, amount, price);
    assert forall|s: StockId| s < w.stocks.len() implies #[trigger] held_total(w.positions, s)
        + w.stocks[s as int].available_supply == w.stocks[s as int].total_supply by {
        assert(held_total(v.positions, s) + v.stocks[s as int].available_supply
            == v.stocks[s as int].total_supply);
    }
    assert forall|i: int| 0 <= i < w.positions.len() implies (#[trigger] w.positions[i]).stock
        < w.stocks.len() by {
        if i < v.positions.len() {
            assert(v.positions[i].stock < v.stocks.len());
        }
    }
    assert forall|s: int| 0 <= s < w.stocks.len() implies valid_stock(#[trigger] w.stocks[s]) by {
        assert(valid_stock(v.stocks[s]));
    }
}

/// Opening an offer keeps the exchange consistent.
pub proof fn lemma_opened_wf(v: ExchangeView, offer: Offer)
    requires
        v.wf(),
        v.offers.len() < u64::MAX,
        valid_offer(offer),
        offer.stock < v.stocks.len(),
    ensures
        v.opened(offer).wf(),
{
    let w = v.opened(offer);
    assert forall|i: int| 0 <= i < w.offers.len() implies valid_offer(#[trigger] w.offers[i])
        && w.offers[i].stock < w.stocks.len() by {
        if i < v.offers.len() {
            assert(w.offers[i] == v.offers[i]);
        }
    }
}

/// Cancelling an offer keeps the exchange consistent.
pub proof fn lemma_cancelled_wf(v: ExchangeView, offer: OfferId)
    requires
        v.wf(),
        offer < v.offers.len(),
    ensures
        v.cancelled(offer).wf(),
{
    let w = v.cancelled(offer);
    assert forall|i: int| 0 <= i < w.offers.len() implies valid_offer(#[trigger] w.offers[i])
        && w.offers[i].stock < w.stocks.len() by {
        assert(valid_offer(v.offers[i]));
    }
}

/// Settling an offer keeps the exchange consistent: no unit is made or lost.
pub proof fn lemma_accepted_wf(v: ExchangeView, offer: OfferId, acceptor: Pubkey, buyer_funds: u64)
    requires
        v.wf(),
        v.accept_error(offer, acceptor, buyer_funds) is None,
    ensures
        v.accepted(offer, acceptor).wf(),
{
    let w = v.accepted(offer, acceptor);
    let record = v.offers[offer as int];
    assert(valid_offer(record) && record.stock < v.stocks.len());
    assert forall|i: int| 0 <= i < w.offers.len() implies valid_offer(#[trigger] w.offers[i])
        && w.offers[i].stock < w.stocks.len() by {
        assert(valid_offer(v.offers[i]));
    }
    if acceptor != record.maker {
        let stock = record.stock;
        let seller = record.seller(acceptor);
        let buyer = record.buyer(acceptor);
        let total = (record.amount * record.price) as u64;
        let after_debit = debited(v.positions, seller, stock, record.amount);
        assert(held_total(v.positions, stock) + v.stocks[stock as int].available_supply
            == v.stocks[stock as int].total_supply);
        lemma_debited(v.positions, seller, stock, record.amount);
        lemma_amount_held_bound(after_debit, buyer, stock);
        assert(held_total(after_debit, stock) == held_total(v.positions, stock) - record.amount);
        lemma_credited(after_debit, buyer, stock, record.amount, record.price);
        assert forall|s: StockId| s < w.stocks.len() implies #[trigger] held_total(w.positions, s)
            + w.stocks[s as int].available_supply == w.stocks[s as int].total_supply by {
            assert(held_total(v.positions, s) + v.stocks[s as int].available_supply
                == v.stocks[s as int].total_supply);
            assert(held_total(after_debit, s) == held_total(v.positions, s) - if s == stock {
                record.amount as int
            } else {
                0
            });
        }
        assert forall|i: int| 0 <= i < w.positions.len() implies (#[trigger] w.positions[i]).stock
            < w.stocks.len() by {
            if i < v.positions.len() {
                assert(v.positions[i].stock < v.stocks.len());
                assert(after_debit[i].stock == v.positions[i].stock);
            }
        }
        assert forall|s: int| 0 <= s < w.stocks.len() implies valid_stock(#[trigger] w.stocks[s]) by {
            assert(valid_stock(v.stocks[s]));
        }
        assert forall|s: int| 0 <= s < w.traded.len() implies #[trigger] w.traded[s]
            <= w.stats.total_volume_24h by {
            assert(v.traded[s] <= v.stats.total_volume_24h);
        }
        assert(prices(w.stocks).len() == w.stocks.len());
        lemma_leader_is_leader(prices(w.stocks));
        lemma_leader_is_leader(w.traded);
    }
}

} // verus!
