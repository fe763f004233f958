//! What holds of the exchange whatever is asked of it, stated over its
//! mathematical model and proved.

use vstd::prelude::*;
use crate::error::ErrorCode;
use crate::instructions::accept_offer::receipt_of;
use crate::instructions::create_offer::opened_offer;
use crate::instructions::create_stock::minted_stock;
use crate::model::{
    is_stock_of,
    lemma_accepted_wf,
    lemma_allocated_wf,
    lemma_cancelled_wf,
    lemma_minted_wf,
    lemma_opened_wf,
    ExchangeView,
};
use crate::positions::{
    amount_held,
    credited_record,
    debited,
    debited_record,
    held_total,
    lemma_amount_held_bound,
    lemma_credited,
    lemma_debited,
    record_of,
};
use crate::state::{Offer, OfferId, OfferStatus, Pubkey, StockId, StockView};

verus! {

/// An exchange without records is consistent. Every operation keeps a
/// consistent exchange consistent, so every state that the operations reach
/// from here is.
pub proof fn law_empty_is_consistent(allow_self_trade: bool)
    ensures
        ExchangeView::empty(allow_self_trade).wf(),
{
}

/// Every operation that is carried out leaves a consistent exchange
/// consistent, as long as the tables have room for one record more.
pub proof fn law_operations_keep_consistency(
    v: ExchangeView,
    name: Seq<char>,
    symbol: Seq<char>,
    total_supply: u64,
    current_price: u64,
    authority: Pubkey,
    caller: Pubkey,
    stock: StockId,
    owner: Pubkey,
    amount: u64,
    is_buy: bool,
    price: u64,
    offer: OfferId,
    buyer_funds: u64,
)
    requires
        v.wf(),
        v.stocks.len() < u64::MAX,
        v.offers.len() < u64::MAX,
    ensures
        v.mint_error(name, symbol, total_supply, current_price, authority) is None ==> v.minted(
            minted_stock(name, symbol, total_supply, current_price, authority),
        ).wf(),
        v.allocate_error(caller, stock, amount) is None ==> v.allocated(stock, owner, amount).wf(),
        v.open_error(caller, stock, is_buy, amount, price) is None ==> v.opened(
            opened_offer(caller, stock, is_buy, amount, price),
        ).wf(),
        v.cancel_error(offer, caller) is None ==> v.cancelled(offer).wf(),
        v.accept_error(offer, caller, buyer_funds) is None ==> v.accepted(offer, caller).wf(),
{
    if v.mint_error(name, symbol, total_supply, current_price, authority) is None {
        lemma_minted_wf(v, minted_stock(name, symbol, total_supply, current_price, authority));
    }
    if v.allocate_error(caller, stock, amount) is None {
        lemma_allocated_wf(v, caller, stock, owner, amount);
    }
    if v.open_error(caller, stock, is_buy, amount, price) is None {
        lemma_opened_wf(v, opened_offer(caller, stock, is_buy, amount, price));
    }
    if v.cancel_error(offer, caller) is None {
        lemma_cancelled_wf(v, offer);
    }
    if v.accept_error(offer, caller, buyer_funds) is None {
        lemma_accepted_wf(v, offer, caller, buyer_funds);
    }
}

/// A consistent exchange never shows more available units of a stock than
/// the stock has in all.
pub proof fn law_available_within_total(v: ExchangeView, stock: StockId)
    requires
        v.wf(),
        stock < v.stocks.len(),
    ensures
        v.stocks[stock as int].available_supply <= v.stocks[stock as int].total_supply,
{
}

/// Conservation: in a consistent exchange the units of a stock held over all
/// owners, together with the units still available, are the total supply.
pub proof fn law_conservation(v: ExchangeView, stock: StockId)
    requires
        v.wf(),
        stock < v.stocks.len(),
    ensures
        held_total(v.positions, stock) + v.stocks[stock as int].available_supply
            == v.stocks[stock as int].total_supply,
{
}

/// An authority and a symbol name one stock at most: two stocks of a
/// consistent exchange that agree in both are the same stock.
pub proof fn law_symbol_names_one_stock(v: ExchangeView, first: StockId, second: StockId)
    requires
        v.wf(),
        first < v.stocks.len(),
        second < v.stocks.len(),
        v.stocks[first as int].authority == v.stocks[second as int].authority,
        v.stocks[first as int].symbol == v.stocks[second as int].symbol,
    ensures
        first == second,
{
    if first < second {
        assert(is_stock_of(
            v.stocks[first as int],
            v.stocks[second as int].authority,
            v.stocks[second as int].symbol,
        ));
    } else if second < first {
        assert(is_stock_of(
            v.stocks[second as int],
            v.stocks[first as int].authority,
            v.stocks[first as int].symbol,
        ));
    }
}

/// The total supply of a stock is fixed at mint: no operation changes it, and
/// none but an allocation changes what is available.
pub proof fn law_supply_is_fixed(
    v: ExchangeView,
    stock: StockId,
    minted: StockView,
    opened: Offer,
    offer: OfferId,
    acceptor: Pubkey,
    owner: Pubkey,
    issued_of: StockId,
    amount: u64,
)
    requires
        v.wf(),
        stock < v.stocks.len(),
        offer < v.offers.len(),
        issued_of < v.stocks.len(),
    ensures
        v.minted(minted).stocks[stock as int] == v.stocks[stock as int],
        v.opened(opened).stocks[stock as int] == v.stocks[stock as int],
        v.cancelled(offer).stocks[stock as int] == v.stocks[stock as int],
        v.accepted(offer, acceptor).stocks[stock as int].total_supply
            == v.stocks[stock as int].total_supply,
        v.accepted(offer, acceptor).stocks[stock as int].available_supply
            == v.stocks[stock as int].available_supply,
        v.allocated(issued_of, owner, amount).stocks[stock as int].total_supply
            == v.stocks[stock as int].total_supply,
{
}

/// Accepting an offer that may be accepted finds it active and leaves it
/// filled.
pub proof fn law_accept_fills(v: ExchangeView, offer: OfferId, acceptor: Pubkey, buyer_funds: u64)
    requires
        v.wf(),
        v.accept_error(offer, acceptor, buyer_funds) is None,
    ensures
        offer < v.offers.len(),
        v.offers[offer as int].status == OfferStatus::Active,
        v.accepted(offer, acceptor).offers[offer as int].status == OfferStatus::Filled,
{
}

/// Only acceptance fills: an offer that is filled after a mint, an
/// allocation, an opening, a cancellation, or the acceptance of another
/// offer was filled before.
pub proof fn law_only_accept_fills(
    v: ExchangeView,
    i: OfferId,
    minted: StockView,
    stock: StockId,
    owner: Pubkey,
    amount: u64,
    maker: Pubkey,
    is_buy: bool,
    price: u64,
    cancelled: OfferId,
    accepted: OfferId,
    acceptor: Pubkey,
)
    requires
        v.wf(),
        cancelled < v.offers.len(),
        accepted < v.offers.len(),
        accepted != i,
    ensures
        filled_in(v.minted(minted), i) ==> filled_in(v, i),
        filled_in(v.allocated(stock, owner, amount), i) ==> filled_in(v, i),
        filled_in(v.opened(opened_offer(maker, stock, is_buy, amount, price)), i) ==> filled_in(v, i),
        filled_in(v.cancelled(cancelled), i) ==> filled_in(v, i),
        filled_in(v.accepted(accepted, acceptor), i) ==> filled_in(v, i),
{
}

/// Whether offer `i` is on record and filled.
pub open spec fn filled_in(v: ExchangeView, i: OfferId) -> bool {
    i < v.offers.len() && v.offers[i as int].status == OfferStatus::Filled
}

/// `Filled` and `Cancelled` are final: an offer that is no longer active is
/// refused by every cancellation and acceptance, and no operation that is
/// carried out changes its record.
pub proof fn law_settled_offers_stay(
    v: ExchangeView,
    i: OfferId,
    caller: Pubkey,
    buyer_funds: u64,
    minted: StockView,
    stock: StockId,
    owner: Pubkey,
    amount: u64,
    opened: Offer,
    other: OfferId,
)
    requires
        v.wf(),
        i < v.offers.len(),
        !v.offers[i as int].active(),
    ensures
        v.cancel_error(i, caller) == Some(ErrorCode::OfferNotActive),
        v.accept_error(i, caller, buyer_funds) == Some(ErrorCode::OfferNotActive),
        v.minted(minted).offers[i as int] == v.offers[i as int],
        v.allocated(stock, owner, amount).offers[i as int] == v.offers[i as int],
        v.opened(opened).offers[i as int] == v.offers[i as int],
        v.cancel_error(other, caller) is None ==> v.cancelled(other).offers[i as int]
            == v.offers[i as int],
        v.accept_error(other, caller, buyer_funds) is None ==> v.accepted(
            other,
            caller,
        ).offers[i as int] == v.offers[i as int],
{
}

/// Cancelling an offer that is not active, or not on record, fails with
/// `OfferNotActive` whoever asks.
pub proof fn law_cancel_needs_active(v: ExchangeView, offer: OfferId, caller: Pubkey)
    requires
        offer >= v.offers.len() || !v.offers[offer as int].active(),
    ensures
        v.cancel_error(offer, caller) == Some(ErrorCode::OfferNotActive),
{
}

/// Cancelling twice: after a cancellation that was carried out, another one
/// of the same offer fails with `OfferNotActive`, whoever asks, and so does
/// an acceptance.
pub proof fn law_cancel_once(
    v: ExchangeView,
    offer: OfferId,
    caller: Pubkey,
    again: Pubkey,
    buyer_funds: u64,
)
    requires
        v.cancel_error(offer, caller) is None,
    ensures
        v.cancelled(offer).offers[offer as int].status == OfferStatus::Cancelled,
        v.cancelled(offer).cancel_error(offer, again) == Some(ErrorCode::OfferNotActive),
        v.cancelled(offer).accept_error(offer, again, buyer_funds) == Some(
            ErrorCode::OfferNotActive,
        ),
{
}

/// Accepting twice: after an acceptance that was carried out, another one of
/// the same offer fails with `OfferNotActive`, whoever asks, and so does a
/// cancellation.
pub proof fn law_accept_once(
    v: ExchangeView,
    offer: OfferId,
    acceptor: Pubkey,
    buyer_funds: u64,
    again: Pubkey,
    funds_again: u64,
)
    requires
        v.wf(),
        v.accept_error(offer, acceptor, buyer_funds) is None,
    ensures
        v.accepted(offer, acceptor).accept_error(offer, again, funds_again) == Some(
            ErrorCode::OfferNotActive,
        ),
        v.accepted(offer, acceptor).cancel_error(offer, again) == Some(ErrorCode::OfferNotActive),
{
}

/// A trade between two parties moves the offer's units from the seller's
/// position to the buyer's, enters them there at the price averaged by
/// volume, and touches no other position. The funds owed are the units times
/// the price, and they fit in 64 bits.
pub proof fn law_trade_moves_units(
    v: ExchangeView,
    offer: OfferId,
    acceptor: Pubkey,
    buyer_funds: u64,
)
    requires
        v.wf(),
        v.accept_error(offer, acceptor, buyer_funds) is None,
        acceptor != v.offers[offer as int].maker,
    ensures
        ({
            let record = v.offers[offer as int];
            let receipt = receipt_of(record, acceptor);
            let w = v.accepted(offer, acceptor);
            &&& receipt.buyer != receipt.seller
            &&& receipt.total == record.amount * record.price
            &&& receipt.total <= buyer_funds
            &&& record_of(w.positions, receipt.seller, record.stock) == debited_record(
                record_of(v.positions, receipt.seller, record.stock),
                record.amount,
            )
            &&& record_of(w.positions, receipt.buyer, record.stock) == Some(
                credited_record(
                    record_of(v.positions, receipt.buyer, record.stock),
                    receipt.buyer,
                    record.stock,
                    record.amount,
                    record.price,
                ),
            )
            &&& amount_held(w.positions, receipt.seller, record.stock) == amount_held(
                v.positions,
                receipt.seller,
                record.stock,
            ) - record.amount
            &&& amount_held(w.positions, receipt.buyer, record.stock) == amount_held(
                v.positions,
                receipt.buyer,
                record.stock,
            ) + record.amount
            &&& forall|o: Pubkey, s: StockId|
                !(s == record.stock && (o == receipt.seller || o == receipt.buyer))
                    ==> #[trigger] record_of(w.positions, o, s) == record_of(v.positions, o, s)
        }),
{
    let record = v.offers[offer as int];
    let stock = record.stock;
    let seller = record.seller(acceptor);
    let buyer = record.buyer(acceptor);
    let w = v.accepted(offer, acceptor);
    let after_debit = debited(v.positions, seller, stock, record.amount);
    assert(record.stock < v.stocks.len());
    assert(held_total(v.positions, stock) + v.stocks[stock as int].available_supply
        == v.stocks[stock as int].total_supply);
    lemma_debited(v.positions, seller, stock, record.amount);
    lemma_amount_held_bound(after_debit, buyer, stock);
    assert(held_total(after_debit, stock) == held_total(v.positions, stock) - record.amount);
    lemma_credited(after_debit, buyer, stock, record.amount, record.price);
    assert(record_of(after_debit, buyer, stock) == record_of(v.positions, buyer, stock));
    assert(record_of(w.positions, seller, stock) == record_of(after_debit, seller, stock));
    assert forall|o: Pubkey, s: StockId|
        !(s == stock && (o == seller || o == buyer)) implies #[trigger] record_of(w.positions, o, s)
        == record_of(v.positions, o, s) by {
        assert(record_of(after_debit, o, s) == record_of(v.positions, o, s));
    }
}

/// A maker who accepts their own offer, where that is allowed, moves
/// nothing: the offer is filled and every other record is as it was.
pub proof fn law_self_trade_moves_nothing(v: ExchangeView, offer: OfferId, buyer_funds: u64)
    requires
        v.wf(),
        offer < v.offers.len(),
        v.accept_error(offer, v.offers[offer as int].maker, buyer_funds) is None,
    ensures
        v.allow_self_trade,
        ({
            let w = v.accepted(offer, v.offers[offer as int].maker);
            &&& w.stocks == v.stocks
            &&& w.traded == v.traded
            &&& w.positions == v.positions
            &&& w.stats == v.stats
        }),
{
}

/// The counters of the statistics only grow: no operation that is carried
/// out lowers the number of stocks, of trades, or the funds moved.
pub proof fn law_counters_only_grow(
    v: ExchangeView,
    minted: StockView,
    stock: StockId,
    owner: Pubkey,
    amount: u64,
    opened: Offer,
    offer: OfferId,
    caller: Pubkey,
    buyer_funds: u64,
)
    requires
        v.wf(),
        v.stocks.len() < u64::MAX,
    ensures
        counters_not_below(v.minted(minted), v),
        counters_not_below(v.allocated(stock, owner, amount), v),
        counters_not_below(v.opened(opened), v),
        counters_not_below(v.cancelled(offer), v),
        v.accept_error(offer, caller, buyer_funds) is None ==> counters_not_below(
            v.accepted(offer, caller),
            v,
        ),
{
}

/// Whether no counter of `after` is below its value in `before`.
pub open spec fn counters_not_below(after: ExchangeView, before: ExchangeView) -> bool {
    &&& after.stats.total_stocks >= before.stats.total_stocks
    &&& after.stats.total_transactions >= before.stats.total_transactions
    &&& after.stats.total_volume_24h >= before.stats.total_volume_24h
}

/// A settled trade is counted once: the statistics gain one transaction and
/// the funds that the trade moved, and the stock takes the price of the
/// trade.
pub proof fn law_trade_is_counted(v: ExchangeView, offer: OfferId, acceptor: Pubkey, buyer_funds: u64)
    requires
        v.wf(),
        v.accept_error(offer, acceptor, buyer_funds) is None,
        acceptor != v.offers[offer as int].maker,
    ensures
        ({
            let record = v.offers[offer as int];
            let w = v.accepted(offer, acceptor);
            &&& w.stats.total_transactions == v.stats.total_transactions + 1
            &&& w.stats.total_volume_24h == v.stats.total_volume_24h + record.amount * record.price
            &&& w.stats.total_stocks == v.stats.total_stocks
            &&& w.stocks[record.stock as int].current_price == record.price
            &&& w.traded[record.stock as int] == v.traded[record.stock as int] + record.amount
                * record.price
        }),
{
    lemma_accepted_wf(v, offer, acceptor, buyer_funds);
}

} // verus!
