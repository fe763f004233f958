use solana_trade::error::ErrorCode;
use solana_trade::exchange::Exchange;
use solana_trade::state::{MarketStats, Offer, OfferStatus, Pubkey, Receipt, StockPosition};

fn key(n: u8) -> Pubkey {
    Pubkey::new([n; 32])
}

fn alice() -> Pubkey {
    key(1)
}

fn bob() -> Pubkey {
    key(2)
}

fn acme(exchange: &mut Exchange) -> u64 {
    exchange
        .mint_stock("Acme".to_string(), "ACM".to_string(), 1000, 10, alice())
        .unwrap()
}

#[test]
fn mint_makes_the_whole_supply_available() {
    let mut exchange = Exchange::new(false);
    let id = exchange
        .mint_stock("Acme".to_string(), "ACM".to_string(), 1000, 10, alice())
        .unwrap();
    assert_eq!(id, 0);
    let stock = exchange.stock(id).unwrap();
    assert_eq!(stock.name, "Acme");
    assert_eq!(stock.symbol, "ACM");
    assert_eq!(stock.total_supply, 1000);
    assert_eq!(stock.available_supply, 1000);
    assert_eq!(stock.current_price, 10);
    assert_eq!(stock.authority, alice());
    assert_eq!(exchange.stats().total_stocks, 1);
    assert_eq!(exchange.traded_volume(id), Some(0));
}

#[test]
fn mint_refuses_a_name_of_33_characters() {
    let mut exchange = Exchange::new(false);
    let r = exchange.mint_stock("x".repeat(33), "S".to_string(), 100, 1, alice());
    assert_eq!(r, Err(ErrorCode::NameTooLong));
    assert!(exchange.stock(0).is_none());
    assert_eq!(exchange.stats().total_stocks, 0);
}

#[test]
fn sell_offer_without_a_position_is_refused() {
    let mut exchange = Exchange::new(false);
    let stock = acme(&mut exchange);
    let r = exchange.open_offer(alice(), stock, false, 50, 12);
    assert_eq!(r, Err(ErrorCode::InsufficientStockBalance));
    assert!(exchange.offer(0).is_none());
}

#[test]
fn sell_offer_settles_between_two_parties() {
    let mut exchange = Exchange::new(false);
    let stock = acme(&mut exchange);
    assert_eq!(exchange.allocate(alice(), stock, alice(), 100), Ok(()));
    let before: MarketStats = exchange.stats();
    let offer = exchange.open_offer(alice(), stock, false, 50, 12).unwrap();
    let receipt = exchange.accept_offer(offer, bob(), 600).unwrap();
    assert_eq!(
        receipt,
        Receipt { amount: 50, price: 12, buyer: bob(), seller: alice(), total: 600 }
    );
    assert_eq!(
        exchange.position(alice(), stock),
        Some(StockPosition { owner: alice(), stock, amount: 50, entry_price: 10 })
    );
    assert_eq!(
        exchange.position(bob(), stock),
        Some(StockPosition { owner: bob(), stock, amount: 50, entry_price: 12 })
    );
    let filled = exchange.offer(offer).unwrap();
    assert!(!filled.is_active());
    assert_eq!(filled.status, OfferStatus::Filled);
    let after = exchange.stats();
    assert_eq!(after.total_transactions, before.total_transactions + 1);
    assert_eq!(after.total_volume_24h, before.total_volume_24h + 600);
    assert_eq!(after.total_stocks, 1);
    assert_eq!(after.highest_valued_stock, Some(stock));
    assert_eq!(after.most_traded_stock, Some(stock));
    let record = exchange.stock(stock).unwrap();
    assert_eq!(record.current_price, 12);
    assert_eq!(record.available_supply, 900);
    assert_eq!(record.total_supply, 1000);
    assert_eq!(exchange.traded_volume(stock), Some(600));
}

#[test]
fn accepting_a_filled_offer_is_refused() {
    let mut exchange = Exchange::new(false);
    let stock = acme(&mut exchange);
    exchange.allocate(alice(), stock, alice(), 100).unwrap();
    let offer = exchange.open_offer(alice(), stock, false, 50, 12).unwrap();
    exchange.accept_offer(offer, bob(), 600).unwrap();
    let stats = exchange.stats();
    let r = exchange.accept_offer(offer, bob(), 600);
    assert_eq!(r, Err(ErrorCode::OfferNotActive));
    assert_eq!(exchange.stats(), stats);
    assert_eq!(exchange.position(alice(), stock).unwrap().amount, 50);
    assert_eq!(exchange.position(bob(), stock).unwrap().amount, 50);
    assert_eq!(exchange.offer(offer).unwrap().status, OfferStatus::Filled);
}

#[test]
fn cancelling_twice_fails_the_second_time() {
    let mut exchange = Exchange::new(false);
    let stock = acme(&mut exchange);
    let offer = exchange.open_offer(bob(), stock, true, 5, 7).unwrap();
    assert_eq!(exchange.cancel_offer(offer, bob()), Ok(()));
    let once: Offer = exchange.offer(offer).unwrap();
    assert_eq!(once.status, OfferStatus::Cancelled);
    assert_eq!(exchange.cancel_offer(offer, bob()), Err(ErrorCode::OfferNotActive));
    assert_eq!(exchange.offer(offer).unwrap(), once);
}

#[test]
fn cancelling_an_offer_that_is_not_active_never_changes_it() {
    let mut exchange = Exchange::new(false);
    let stock = acme(&mut exchange);
    exchange.allocate(alice(), stock, alice(), 100).unwrap();
    let offer = exchange.open_offer(alice(), stock, false, 50, 12).unwrap();
    exchange.accept_offer(offer, bob(), 600).unwrap();
    let filled = exchange.offer(offer).unwrap();
    // the maker, a stranger, and an offer that was never opened
    assert_eq!(exchange.cancel_offer(offer, alice()), Err(ErrorCode::OfferNotActive));
    assert_eq!(exchange.cancel_offer(offer, key(9)), Err(ErrorCode::OfferNotActive));
    assert_eq!(exchange.cancel_offer(17, alice()), Err(ErrorCode::OfferNotActive));
    assert_eq!(exchange.offer(offer).unwrap(), filled);
    assert_eq!(filled.status, OfferStatus::Filled);
}

#[test]
fn a_refused_acceptance_changes_nothing() {
    let mut exchange = Exchange::new(false);
    let stock = acme(&mut exchange);
    exchange.allocate(alice(), stock, alice(), 100).unwrap();
    let offer = exchange.open_offer(alice(), stock, false, 50, 12).unwrap();
    let stats = exchange.stats();
    let seller = exchange.position(alice(), stock);
    let record = exchange.offer(offer).unwrap();
    assert_eq!(exchange.accept_offer(offer, bob(), 599), Err(ErrorCode::InsufficientFunds));
    assert_eq!(exchange.position(alice(), stock), seller);
    assert_eq!(exchange.position(bob(), stock), None);
    assert_eq!(exchange.offer(offer).unwrap(), record);
    assert!(exchange.offer(offer).unwrap().is_active());
    assert_eq!(exchange.stats(), stats);
    assert_eq!(exchange.stock(stock).unwrap().current_price, 10);
    assert_eq!(exchange.traded_volume(stock), Some(0));
    // the same offer still settles once the buyer can pay
    assert!(exchange.accept_offer(offer, bob(), 600).is_ok());
}

#[test]
fn units_are_conserved_through_allocations_and_trades() {
    let mut exchange = Exchange::new(false);
    let stock = acme(&mut exchange);
    let carol = key(3);
    exchange.allocate(alice(), stock, alice(), 400).unwrap();
    exchange.allocate(alice(), stock, bob(), 250).unwrap();
    let sell = exchange.open_offer(alice(), stock, false, 150, 11).unwrap();
    exchange.accept_offer(sell, carol, 10_000).unwrap();
    let buy = exchange.open_offer(bob(), stock, true, 30, 9).unwrap();
    exchange.accept_offer(buy, carol, 10_000).unwrap();
    let held = exchange.position(alice(), stock).unwrap().amount
        + exchange.position(bob(), stock).unwrap().amount
        + exchange.position(carol, stock).unwrap().amount;
    let record = exchange.stock(stock).unwrap();
    assert_eq!(exchange.position(alice(), stock).unwrap().amount, 250);
    assert_eq!(exchange.position(bob(), stock).unwrap().amount, 280);
    assert_eq!(exchange.position(carol, stock).unwrap().amount, 120);
    assert_eq!(record.available_supply, 350);
    assert_eq!(held + record.available_supply, record.total_supply);
    assert!(record.available_supply <= record.total_supply);
}

#[test]
fn only_acceptance_fills_an_offer() {
    let mut exchange = Exchange::new(false);
    let stock = acme(&mut exchange);
    exchange.allocate(alice(), stock, alice(), 100).unwrap();
    let first = exchange.open_offer(alice(), stock, false, 10, 12).unwrap();
    let second = exchange.open_offer(alice(), stock, false, 10, 12).unwrap();
    assert_eq!(exchange.offer(first).unwrap().status, OfferStatus::Active);
    exchange
        .mint_stock("Other".to_string(), "OTH".to_string(), 5, 5, bob())
        .unwrap();
    exchange.allocate(alice(), stock, bob(), 1).unwrap();
    exchange.cancel_offer(second, alice()).unwrap();
    assert_eq!(exchange.offer(first).unwrap().status, OfferStatus::Active);
    assert_eq!(exchange.offer(second).unwrap().status, OfferStatus::Cancelled);
    exchange.accept_offer(first, bob(), 120).unwrap();
    assert_eq!(exchange.offer(first).unwrap().status, OfferStatus::Filled);
    assert_eq!(exchange.offer(second).unwrap().status, OfferStatus::Cancelled);
}
