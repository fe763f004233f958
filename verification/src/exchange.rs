//! The exchange: the record tables, and the operations that read and change
//! them. Every operation either does all of its work or leaves the exchange
//! as it was.

use vstd::prelude::*;
use vstd::string::StrSliceExecFns;
use crate::error::ErrorCode;
use crate::instructions::accept_offer::receipt_of;
use crate::instructions::create_offer::opened_offer;
use crate::instructions::create_stock::{minted_stock, MAX_NAME_LEN, MAX_SYMBOL_LEN};
use crate::instructions::{accept_offer, cancel_offer, create_offer, create_stock};
use crate::model::{
    lemma_accepted_wf,
    lemma_allocated_wf,
    lemma_cancelled_wf,
    lemma_minted_wf,
    has_stock,
    is_stock_of,
    lemma_opened_wf,
    offers_valid,
    positions_known,
    prices,
    stock_views,
    stocks_distinct,
    stocks_valid,
    units_conserved,
    valid_offer,
    valid_stock,
    volumes_counted,
    ExchangeView,
};
use crate::positions::{
    debited,
    held_total,
    lemma_amount_held_bound,
    lemma_debited,
    record_of,
    units_held,
    PositionLedger,
};
use crate::state::{
    MarketStats,
    Offer,
    OfferId,
    OfferStatus,
    Pubkey,
    Receipt,
    Stock,
    StockId,
    StockPosition,
    StockView,
};

verus! {

/// The current price of every stock, each at the place of its identifier.
fn price_list(stocks: &Vec<Stock>) -> (list: Vec<u64>)
    ensures
        list@ == prices(stock_views(stocks@)),
{
    let mut list: Vec<u64> = Vec::new();
    let mut i: usize = 0;
    while i < stocks.len()
        invariant
            i <= stocks.len(),
            list@.len() == i,
            forall|j: int| 0 <= j < i ==> list@[j] == stocks@[j].current_price,
        decreases stocks.len() - i,
    {
        list.push(stocks[i].current_price);
        i += 1;
    }
    assert(list@ =~= prices(stock_views(stocks@)));
    list
}

/// Whether every stock record is valid.
fn stocks_are_valid(stocks: &Vec<Stock>) -> (ok: bool)
    ensures
        ok == stocks_valid(stock_views(stocks@)),
{
    let mut i: usize = 0;
    while i < stocks.len()
        invariant
            i <= stocks.len(),
            forall|s: int| 0 <= s < i ==> valid_stock(#[trigger] stock_views(stocks@)[s]),
        decreases stocks.len() - i,
    {
        let stock = &stocks[i];
        if stock.name.as_str().unicode_len() > MAX_NAME_LEN || stock.symbol.as_str().unicode_len()
            > MAX_SYMBOL_LEN || stock.total_supply == 0 || stock.current_price == 0
            || stock.available_supply > stock.total_supply {
            assert(!valid_stock(stock_views(stocks@)[i as int]));
            return false;
        }
        i += 1;
    }
    true
}

/// Whether no authority has two stocks under one symbol.
fn stocks_are_distinct(stocks: &Vec<Stock>) -> (ok: bool)
    ensures
        ok == stocks_distinct(stock_views(stocks@)),
{
    let mut t: usize = 0;
    while t < stocks.len()
        invariant
            t <= stocks.len(),
            forall|a: int, b: int|
                0 <= a < b < t ==> !is_stock_of(
                    #[trigger] stock_views(stocks@)[a],
                    (#[trigger] stock_views(stocks@)[b]).authority,
                    stock_views(stocks@)[b].symbol,
                ),
        decreases stocks.len() - t,
    {
        let mut s: usize = 0;
        while s < t
            invariant
                s <= t < stocks.len(),
                forall|a: int|
                    0 <= a < s ==> !is_stock_of(
                        #[trigger] stock_views(stocks@)[a],
                        stock_views(stocks@)[t as int].authority,
                        stock_views(stocks@)[t as int].symbol,
                    ),
            decreases t - s,
        {
            if stocks[s].authority == stocks[t].authority && stocks[s].symbol == stocks[t].symbol {
                assert(is_stock_of(
                    stock_views(stocks@)[s as int],
                    stock_views(stocks@)[t as int].authority,
                    stock_views(stocks@)[t as int].symbol,
                ));
                return false;
            }
            s += 1;
        }
        t += 1;
    }
    true
}

/// Whether, for every stock, the units held and the units available make up
/// the total supply.
fn units_are_conserved(stocks: &Vec<Stock>, positions: &Vec<StockPosition>) -> (ok: bool)
    ensures
        ok == units_conserved(stock_views(stocks@), positions@),
{
    let mut i: usize = 0;
    while i < stocks.len()
        invariant
            i <= stocks.len(),
            forall|s: StockId|
                s < i ==> #[trigger] held_total(positions@, s) + stock_views(
                    stocks@,
                )[s as int].available_supply == stock_views(stocks@)[s as int].total_supply,
        decreases stocks.len() - i,
    {
        let stock = &stocks[i];
        let ghost id = i as StockId;
        assert(stock_views(stocks@)[id as int] == stock@);
        if stock.available_supply > stock.total_supply {
            assert(held_total(positions@, id) + stock@.available_supply != stock@.total_supply);
            return false;
        }
        let issued = stock.total_supply - stock.available_supply;
        match units_held(positions, i as u64, issued) {
            Some(held) => {
                if held != issued {
                    assert(held_total(positions@, id) + stock@.available_supply
                        != stock@.total_supply);
                    return false;
                }
            },
            None => {
                assert(held_total(positions@, id) + stock@.available_supply != stock@.total_supply);
                return false;
            },
        }
        i += 1;
    }
    true
}

/// Whether every position is in one of the first `count` stocks.
fn positions_are_known(positions: &Vec<StockPosition>, count: usize) -> (ok: bool)
    ensures
        ok == positions_known(positions@, count as nat),
{
    let mut i: usize = 0;
    while i < positions.len()
        invariant
            i <= positions.len(),
            forall|j: int| 0 <= j < i ==> (#[trigger] positions@[j]).stock < count,
        decreases positions.len() - i,
    {
        if positions[i].stock >= count as u64 {
            assert(!(positions@[i as int].stock < count));
            return false;
        }
        i += 1;
    }
    true
}

/// Whether every offer is valid and names one of the first `count` stocks.
fn offers_are_valid(offers: &Vec<Offer>, count: usize) -> (ok: bool)
    ensures
        ok == offers_valid(offers@, count as nat),
{
    let mut i: usize = 0;
    while i < offers.len()
        invariant
            i <= offers.len(),
            forall|j: int|
                0 <= j < i ==> valid_offer(#[trigger] offers@[j]) && offers@[j].stock < count,
        decreases offers.len() - i,
    {
        if offers[i].amount == 0 || offers[i].price == 0 || offers[i].stock >= count as u64 {
            assert(!(valid_offer(offers@[i as int]) && offers@[i as int].stock < count));
            return false;
        }
        i += 1;
    }
    true
}

/// Whether no stock has traded more than `total`.
fn volumes_are_counted(traded: &Vec<u64>, total: u64) -> (ok: bool)
    ensures
        ok == volumes_counted(traded@, total),
{
    let mut i: usize = 0;
    while i < traded.len()
        invariant
            i <= traded.len(),
            forall|s: int| 0 <= s < i ==> #[trigger] traded@[s] <= total,
        decreases traded.len() - i,
    {
        if traded[i] > total {
            assert(!(traded@[i as int] <= total));
            return false;
        }
        i += 1;
    }
    true
}

/// The state that the given tables stand for.
pub open spec fn tables_view(
    stocks: Seq<Stock>,
    traded: Seq<u64>,
    positions: Seq<StockPosition>,
    offers: Seq<Offer>,
    stats: MarketStats,
    allow_self_trade: bool,
) -> ExchangeView {
    ExchangeView { stocks: stock_views(stocks), traded, positions, offers, stats, allow_self_trade }
}

/// A stock exchange held in memory.
pub struct Exchange {
    stocks: Vec<Stock>,
    traded: Vec<u64>,
    positions: PositionLedger,
    offers: Vec<Offer>,
    stats: MarketStats,
    allow_self_trade: bool,
}

impl View for Exchange {
    type V = ExchangeView;

    closed spec fn view(&self) -> ExchangeView {
        ExchangeView {
            stocks: stock_views(self.stocks@),
            traded: self.traded@,
            positions: self.positions@,
            offers: self.offers@,
            stats: self.stats,
            allow_self_trade: self.allow_self_trade,
        }
    }
}

impl Exchange {
    /// The records are consistent: see `ExchangeView::wf`.
    pub open spec fn wf(&self) -> bool {
        self@.wf()
    }

    /// An exchange without records. `allow_self_trade` decides for good
    /// whether a maker may accept their own offer.
    pub fn new(allow_self_trade: bool) -> (exchange: Exchange)
        ensures
            exchange.wf(),
            exchange@ == ExchangeView::empty(allow_self_trade),
    {
        let exchange = Exchange {
            stocks: Vec::new(),
            traded: Vec::new(),
            positions: PositionLedger::new(),
            offers: Vec::new(),
            stats: MarketStats::new(),
            allow_self_trade,
        };
        assert(exchange@.stocks =~= Seq::<StockView>::empty());
        exchange
    }

    /// The exchange that the given tables stand for, or `None` where they are
    /// not consistent. A stock's identifier is its place in `stocks`, and
    /// `traded` holds at the same place the funds that its trades moved.
    pub fn restore(
        stocks: Vec<Stock>,
        traded: Vec<u64>,
        positions: Vec<StockPosition>,
        offers: Vec<Offer>,
        stats: MarketStats,
        allow_self_trade: bool,
    ) -> (restored: Option<Exchange>)
        ensures
            match restored {
                Some(exchange) => exchange.wf() && exchange@ == tables_view(
                    stocks@,
                    traded@,
                    positions@,
                    offers@,
                    stats,
                    allow_self_trade,
                ),
                None => !tables_view(stocks@, traded@, positions@, offers@, stats, allow_self_trade).wf(),
            },
    {
        let count = stocks.len();
        if traded.len() != count || stats.total_stocks != count as u64 {
            return None;
        }
        if let Some(leader) = stats.highest_valued_stock {
            if leader >= count as u64 {
                return None;
            }
        }
        if let Some(leader) = stats.most_traded_stock {
            if leader >= count as u64 {
                return None;
            }
        }
        if !stocks_are_valid(&stocks) || !stocks_are_distinct(&stocks) || !units_are_conserved(
            &stocks,
            &positions,
        )
            || !positions_are_known(&positions, count) || !offers_are_valid(&offers, count)
            || !volumes_are_counted(&traded, stats.total_volume_24h) {
            return None;
        }
        assert(offers.len() == offers@.len());
        match PositionLedger::from_records(positions) {
            Some(ledger) => Some(
                Exchange { stocks, traded, positions: ledger, offers, stats, allow_self_trade },
            ),
            None => None,
        }
    }

    /// The stock records; a stock's identifier is its place here.
    pub fn stocks(&self) -> (stocks: &Vec<Stock>)
        ensures
            stock_views(stocks@) == self@.stocks,
    {
        &self.stocks
    }

    /// The funds moved by the settled trades of each stock, at the place of
    /// the stock's identifier.
    pub fn traded(&self) -> (traded: &Vec<u64>)
        ensures
            traded@ == self@.traded,
    {
        &self.traded
    }

    /// The position records.
    pub fn positions(&self) -> (positions: &Vec<StockPosition>)
        ensures
            positions@ == self@.positions,
    {
        self.positions.records()
    }

    /// The offer records; an offer's identifier is its place here.
    pub fn offers(&self) -> (offers: &Vec<Offer>)
        ensures
            offers@ == self@.offers,
    {
        &self.offers
    }

    /// The record of stock `id`, if there is one.
    pub fn stock(&self, id: StockId) -> (found: Option<&Stock>)
        ensures
            match found {
                Some(stock) => id < self@.stocks.len() && stock@ == self@.stocks[id as int],
                None => id >= self@.stocks.len(),
            },
    {
        if id < self.stocks.len() as u64 {
            Some(&self.stocks[id as usize])
        } else {
            None
        }
    }

    /// The stock that `authority` minted under `symbol`, if there is one. In
    /// a consistent exchange an authority and a symbol name one stock at
    /// most; in any, the first such stock is found.
    pub fn find_stock(&self, authority: Pubkey, symbol: &String) -> (found: Option<StockId>)
        ensures
            match found {
                Some(id) => id < self@.stocks.len() && is_stock_of(
                    self@.stocks[id as int],
                    authority,
                    symbol@,
                ) && forall|j: int|
                    0 <= j < id ==> !is_stock_of(#[trigger] self@.stocks[j], authority, symbol@),
                None => !has_stock(self@.stocks, authority, symbol@),
            },
    {
        let mut i: usize = 0;
        while i < self.stocks.len()
            invariant
                i <= self.stocks.len(),
                forall|j: int|
                    0 <= j < i ==> !is_stock_of(#[trigger] self@.stocks[j], authority, symbol@),
            decreases self.stocks.len() - i,
        {
            if self.stocks[i].authority == authority && self.stocks[i].symbol == *symbol {
                return Some(i as u64);
            }
            i += 1;
        }
        None
    }

    /// The funds moved by the settled trades of stock `id`, if there is such
    /// a stock.
    pub fn traded_volume(&self, id: StockId) -> (found: Option<u64>)
        requires
            self.wf(),
        ensures
            match found {
                Some(volume) => id < self@.stocks.len() && volume == self@.traded[id as int],
                None => id >= self@.stocks.len(),
            },
    {
        if id < self.traded.len() as u64 {
            Some(self.traded[id as usize])
        } else {
            None
        }
    }

    /// The record of offer `id`, if there is one.
    pub fn offer(&self, id: OfferId) -> (found: Option<Offer>)
        ensures
            match found {
                Some(offer) => id < self@.offers.len() && offer == self@.offers[id as int],
                None => id >= self@.offers.len(),
            },
    {
        if id < self.offers.len() as u64 {
            Some(self.offers[id as usize])
        } else {
            None
        }
    }

    /// The position of `owner` in `stock`, if there is a record of one.
    pub fn position(&self, owner: Pubkey, stock: StockId) -> (found: Option<StockPosition>)
        requires
            self.wf(),
        ensures
            found == record_of(self@.positions, owner, stock),
    {
        self.positions.position(owner, stock)
    }

    /// The market statistics.
    pub fn stats(&self) -> (stats: MarketStats)
        ensures
            stats == self@.stats,
    {
        self.stats
    }

    /// Whether a maker may accept their own offer.
    pub fn allows_self_trade(&self) -> (allowed: bool)
        ensures
            allowed == self@.allow_self_trade,
    {
        self.allow_self_trade
    }

    /// Mints a stock with the whole supply available and returns its
    /// identifier. The terms are checked as `mint_error` says, and an
    /// authority has one stock at most under a symbol; a refused mint changes
    /// nothing.
    pub fn mint_stock(
        &mut self,
        name: String,
        symbol: String,
        total_supply: u64,
        current_price: u64,
        authority: Pubkey,
    ) -> (r: Result<StockId, ErrorCode>)
        requires
            old(self).wf(),
        ensures
            final(self).wf(),
            match r {
                Ok(id) => old(self)@.mint_error(name@, symbol@, total_supply, current_price, authority)
                    is None && id == old(self)@.stocks.len() && final(self)@ == old(self)@.minted(
                    minted_stock(name@, symbol@, total_supply, current_price, authority),
                ),
                Err(e) => old(self)@.mint_error(name@, symbol@, total_supply, current_price, authority)
                    == Some(e) && final(self)@ == old(self)@,
            },
    {
        let ghost record = minted_stock(name@, symbol@, total_supply, current_price, authority);
        let taken = self.find_stock(authority, &symbol);
        let stock = match create_stock::handler(name, symbol, total_supply, current_price, authority) {
            Ok(stock) => stock,
            Err(e) => {
                return Err(e);
            },
        };
        if taken.is_some() {
            return Err(ErrorCode::RecordExists);
        }
        let id = self.stocks.len();
        self.stocks.push(stock);
        self.traded.push(0);
        assert(self.stocks.len() == old(self)@.stocks.len() + 1);
        self.stats.on_mint();
        proof {
            assert(self@.stocks =~= old(self)@.stocks.push(record));
            lemma_minted_wf(old(self)@, record);
        }
        Ok(id as u64)
    }

    /// Issues `amount` available units of `stock` to `owner`, at the stock's
    /// current price. Only the stock's authority may do so. The request is
    /// checked as `allocate_error` says; a refused one changes nothing.
    pub fn allocate(&mut self, caller: Pubkey, stock: StockId, owner: Pubkey, amount: u64) -> (r: Result<
        (),
        ErrorCode,
    >)
        requires
            old(self).wf(),
        ensures
            final(self).wf(),
            match r {
                Ok(()) => old(self)@.allocate_error(caller, stock, amount) is None && final(self)@
                    == old(self)@.allocated(stock, owner, amount),
                Err(e) => old(self)@.allocate_error(caller, stock, amount) == Some(e) && final(self)@
                    == old(self)@,
            },
    {
        if stock >= self.stocks.len() as u64 {
            return Err(ErrorCode::RecordNotFound);
        }
        let place = stock as usize;
        if caller != self.stocks[place].authority {
            return Err(ErrorCode::NotAuthorized);
        }
        if amount == 0 {
            return Err(ErrorCode::InvalidSupply);
        }
        let available = self.stocks[place].available_supply;
        if amount > available {
            return Err(ErrorCode::InsufficientStockBalance);
        }
        let price = self.stocks[place].current_price;
        proof {
            // The owner holds no more than was issued, so the new units fit.
            lemma_amount_held_bound(self@.positions, owner, stock);
            assert(held_total(self@.positions, stock) + self@.stocks[stock as int].available_supply
                == self@.stocks[stock as int].total_supply);
            lemma_allocated_wf(self@, caller, stock, owner, amount);
        }
        self.stocks[place].available_supply = available - amount;
        self.positions.credit(owner, stock, amount, price);
        assert(self@.stocks =~= old(self)@.allocated(stock, owner, amount).stocks);
        Ok(())
    }

    /// Opens an offer by `maker` and returns its identifier. The terms are
    /// checked as `open_error` says; a refused offer changes nothing. A sell
    /// offer needs the units in the maker's position now, but reserves none:
    /// the holding is tested again when the offer is accepted.
    pub fn open_offer(&mut self, maker: Pubkey, stock: StockId, is_buy: bool, amount: u64, price: u64) -> (r:
        Result<OfferId, ErrorCode>)
        requires
            old(self).wf(),
        ensures
            final(self).wf(),
            match r {
                Ok(id) => old(self)@.open_error(maker, stock, is_buy, amount, price) is None && id
                    == old(self)@.offers.len() && final(self)@ == old(self)@.opened(
                    opened_offer(maker, stock, is_buy, amount, price),
                ),
                Err(e) => old(self)@.open_error(maker, stock, is_buy, amount, price) == Some(e)
                    && final(self)@ == old(self)@,
            },
    {
        let held = if stock < self.stocks.len() as u64 {
            Some(self.positions.held(maker, stock))
        } else {
            None
        };
        let offer = match create_offer::handler(maker, stock, is_buy, amount, price, held) {
            Ok(offer) => offer,
            Err(e) => {
                return Err(e);
            },
        };
        let id = self.offers.len();
        self.offers.push(offer);
        proof {
            assert(self.offers.len() == old(self)@.offers.len() + 1);
            lemma_opened_wf(old(self)@, offer);
        }
        Ok(id as u64)
    }

    /// Cancels an active offer at its maker's request. The request is checked
    /// as `cancel_error` says; a refused one changes nothing.
    pub fn cancel_offer(&mut self, offer: OfferId, caller: Pubkey) -> (r: Result<(), ErrorCode>)
        requires
            old(self).wf(),
        ensures
            final(self).wf(),
            match r {
                Ok(()) => old(self)@.cancel_error(offer, caller) is None && final(self)@
                    == old(self)@.cancelled(offer),
                Err(e) => old(self)@.cancel_error(offer, caller) == Some(e) && final(self)@ == old(self)@,
            },
    {
        if offer >= self.offers.len() as u64 {
            return Err(ErrorCode::OfferNotActive);
        }
        let mut record = self.offers[offer as usize];
        match cancel_offer::handler(&mut record, caller) {
            Ok(()) => {
                self.offers.set(offer as usize, record);
                proof {
                    lemma_cancelled_wf(old(self)@, offer);
                }
                Ok(())
            },
            Err(e) => Err(e),
        }
    }

    /// Settles an active offer with `acceptor` and says what the trade moved.
    /// `buyer_funds` is what the buyer can pay: the maker of a buy offer, the
    /// acceptor of a sell offer. The request is checked as `accept_error`
    /// says; a refused one changes nothing. The funds themselves are not held
    /// here: the caller moves `total` from the buyer to the seller.
    pub fn accept_offer(&mut self, offer: OfferId, acceptor: Pubkey, buyer_funds: u64) -> (r: Result<
        Receipt,
        ErrorCode,
    >)
        requires
            old(self).wf(),
        ensures
            final(self).wf(),
            match r {
                Ok(receipt) => old(self)@.accept_error(offer, acceptor, buyer_funds) is None
                    && receipt == receipt_of(old(self)@.offers[offer as int], acceptor) && final(self)@
                    == old(self)@.accepted(offer, acceptor),
                Err(e) => old(self)@.accept_error(offer, acceptor, buyer_funds) == Some(e)
                    && final(self)@ == old(self)@,
            },
    {
        if offer >= self.offers.len() as u64 {
            return Err(ErrorCode::OfferNotActive);
        }
        let place = offer as usize;
        let record = self.offers[place];
        let seller = if record.is_buy {
            acceptor
        } else {
            record.maker
        };
        let seller_held = self.positions.held(seller, record.stock);
        let receipt = match accept_offer::handler(
            &record,
            acceptor,
            seller_held,
            buyer_funds,
            self.allow_self_trade,
        ) {
            Ok(receipt) => receipt,
            Err(e) => {
                return Err(e);
            },
        };
        if acceptor == record.maker {
            self.offers[place].status = OfferStatus::Filled;
            proof {
                assert(self@.offers =~= old(self)@.accepted(offer, acceptor).offers);
                lemma_accepted_wf(old(self)@, offer, acceptor, buyer_funds);
            }
            return Ok(receipt);
        }
        // No stock has traded more than the market in all.
        assert(old(self)@.traded[record.stock as int] <= old(self)@.stats.total_volume_24h);
        assert(record.stock < self.stocks.len());
        let stock_place = record.stock as usize;
        let mut price_list = price_list(&self.stocks);
        price_list.set(stock_place, record.price);
        match self.stats.on_trade(&mut self.traded, &price_list, record.stock, receipt.total) {
            Ok(()) => {},
            Err(e) => {
                return Err(e);
            },
        }
        proof {
            lemma_accepted_wf(old(self)@, offer, acceptor, buyer_funds);
            // What the buyer holds after the seller's debit is no more than
            // was issued less the units on their way, so these fit.
            let rest = debited(old(self)@.positions, seller, record.stock, record.amount);
            lemma_debited(old(self)@.positions, seller, record.stock, record.amount);
            lemma_amount_held_bound(rest, receipt.buyer, record.stock);
            let minted = old(self)@.stocks[record.stock as int];
            assert(held_total(old(self)@.positions, record.stock) + minted.available_supply
                == minted.total_supply);
        }
        self.positions.withdraw(seller, record.stock, record.amount);
        self.positions.credit(receipt.buyer, record.stock, record.amount, record.price);
        self.offers[place].status = OfferStatus::Filled;
        self.stocks[stock_place].current_price = record.price;
        proof {
            let target = old(self)@.accepted(offer, acceptor);
            assert(self@.offers =~= target.offers);
            assert(self@.stocks =~= target.stocks);
            assert(price_list@ =~= prices(target.stocks));
        }
        Ok(receipt)
    }
}

} // verus!
