use solana_trade::exchange::Exchange;
use solana_trade::state::{MarketStats, Offer, OfferStatus, Pubkey, Stock, StockPosition};

fn key(n: u8) -> Pubkey {
    Pubkey::new([n; 32])
}

fn stock(total_supply: u64, available_supply: u64, current_price: u64) -> Stock {
    Stock {
        name: "Acme".to_string(),
        symbol: "ACM".to_string(),
        total_supply,
        available_supply,
        current_price,
        authority: key(1),
    }
}

fn position(owner: u8, stock: u64, amount: u64) -> StockPosition {
    StockPosition { owner: key(owner), stock, amount, entry_price: 10 }
}

fn offer(stock: u64, amount: u64, price: u64) -> Offer {
    Offer { is_buy: false, maker: key(1), stock, amount, price, status: OfferStatus::Active }
}

fn stats(total_stocks: u64, total_volume_24h: u64) -> MarketStats {
    MarketStats {
        total_stocks,
        total_volume_24h,
        total_transactions: 0,
        highest_valued_stock: None,
        most_traded_stock: None,
    }
}

/// One stock of 100 units, 60 of them held by two owners.
fn tables() -> (Vec<Stock>, Vec<u64>, Vec<StockPosition>, Vec<Offer>, MarketStats) {
    (
        vec![stock(100, 40, 10)],
        vec![5],
        vec![position(1, 0, 50), position(2, 0, 10)],
        vec![offer(0, 20, 12)],
        stats(1, 5),
    )
}

#[test]
fn a_new_exchange_has_no_records() {
    let exchange = Exchange::new(true);
    assert!(exchange.stocks().is_empty());
    assert!(exchange.traded().is_empty());
    assert!(exchange.positions().is_empty());
    assert!(exchange.offers().is_empty());
    assert_eq!(exchange.stats(), MarketStats::new());
    assert!(exchange.allows_self_trade());
    assert!(exchange.stock(0).is_none());
    assert!(exchange.offer(0).is_none());
    assert_eq!(exchange.traded_volume(0), None);
    assert_eq!(exchange.position(key(1), 0), None);
}

#[test]
fn consistent_tables_are_restored_as_they_are() {
    let (stocks, traded, positions, offers, stats) = tables();
    let mut exchange = Exchange::restore(
        stocks.clone(),
        traded.clone(),
        positions.clone(),
        offers.clone(),
        stats,
        false,
    )
    .unwrap();
    assert_eq!(exchange.stocks(), &stocks);
    assert_eq!(exchange.traded(), &traded);
    assert_eq!(exchange.positions(), &positions);
    assert_eq!(exchange.offers(), &offers);
    assert_eq!(exchange.stats(), stats);
    assert!(!exchange.allows_self_trade());
    // and the restored exchange goes on where the stored one stopped
    let receipt = exchange.accept_offer(0, key(2), 240).unwrap();
    assert_eq!(receipt.total, 240);
    assert_eq!(exchange.position(key(1), 0).unwrap().amount, 30);
    assert_eq!(exchange.position(key(2), 0).unwrap().amount, 30);
    assert_eq!(exchange.traded_volume(0), Some(245));
    assert_eq!(exchange.stats().total_volume_24h, 245);
}

#[test]
fn an_exchange_survives_being_stored_and_restored() {
    let (alice, bob) = (key(1), key(2));
    let mut exchange = Exchange::new(true);
    let first = exchange.mint_stock("One".to_string(), "ONE".to_string(), 100, 10, alice).unwrap();
    let second = exchange.mint_stock("Two".to_string(), "TWO".to_string(), 50, 3, bob).unwrap();
    exchange.allocate(alice, first, alice, 60).unwrap();
    exchange.allocate(bob, second, alice, 50).unwrap();
    let offer = exchange.open_offer(alice, first, false, 10, 11).unwrap();
    exchange.accept_offer(offer, bob, 110).unwrap();
    let open = exchange.open_offer(bob, second, true, 5, 4).unwrap();
    let gone = exchange.open_offer(bob, first, false, 1, 1).unwrap();
    exchange.cancel_offer(gone, bob).unwrap();

    let restored = Exchange::restore(
        exchange.stocks().clone(),
        exchange.traded().clone(),
        exchange.positions().clone(),
        exchange.offers().clone(),
        exchange.stats(),
        exchange.allows_self_trade(),
    )
    .unwrap();
    assert_eq!(restored.stocks(), exchange.stocks());
    assert_eq!(restored.traded(), exchange.traded());
    assert_eq!(restored.positions(), exchange.positions());
    assert_eq!(restored.offers(), exchange.offers());
    assert_eq!(restored.stats(), exchange.stats());
    assert!(restored.allows_self_trade());
    assert!(restored.offer(open).unwrap().is_active());
    assert_eq!(restored.offer(gone).unwrap().status, OfferStatus::Cancelled);
    assert_eq!(restored.offer(offer).unwrap().status, OfferStatus::Filled);
}

#[test]
fn tables_of_unequal_length_are_refused() {
    let (stocks, _, positions, offers, stats) = tables();
    assert!(Exchange::restore(stocks, vec![], positions, offers, stats, false).is_none());
    let (stocks, _, positions, offers, stats) = tables();
    assert!(Exchange::restore(stocks, vec![5, 0], positions, offers, stats, false).is_none());
}

#[test]
fn a_wrong_count_of_stocks_is_refused() {
    let (stocks, traded, positions, offers, _) = tables();
    assert!(Exchange::restore(stocks, traded, positions, offers, stats(2, 5), false).is_none());
}

#[test]
fn an_invalid_stock_is_refused() {
    for bad in [stock(0, 0, 10), stock(100, 40, 0), stock(100, 101, 10)] {
        assert!(Exchange::restore(vec![bad], vec![0], vec![], vec![], stats(1, 0), false).is_none());
    }
    let mut long_name = stock(100, 100, 10);
    long_name.name = "n".repeat(33);
    assert!(Exchange::restore(vec![long_name], vec![0], vec![], vec![], stats(1, 0), false).is_none());
    let mut long_symbol = stock(100, 100, 10);
    long_symbol.symbol = "s".repeat(13);
    assert!(Exchange::restore(vec![long_symbol], vec![0], vec![], vec![], stats(1, 0), false).is_none());
    let good = vec![stock(100, 100, 10)];
    assert!(Exchange::restore(good, vec![0], vec![], vec![], stats(1, 0), false).is_some());
}

#[test]
fn two_stocks_of_one_authority_under_one_symbol_are_refused() {
    let twice = vec![stock(100, 100, 10), stock(5, 5, 1)];
    assert!(Exchange::restore(twice, vec![0, 0], vec![], vec![], stats(2, 0), false).is_none());
    let mut other = stock(5, 5, 1);
    other.symbol = "OTH".to_string();
    let apart = vec![stock(100, 100, 10), other];
    assert!(Exchange::restore(apart, vec![0, 0], vec![], vec![], stats(2, 0), false).is_some());
    let mut others = stock(5, 5, 1);
    others.authority = key(2);
    let apart = vec![stock(100, 100, 10), others];
    assert!(Exchange::restore(apart, vec![0, 0], vec![], vec![], stats(2, 0), false).is_some());
}

#[test]
fn units_that_do_not_add_up_are_refused() {
    let (stocks, traded, _, offers, stats) = tables();
    // one unit too few
    let few = vec![position(1, 0, 50), position(2, 0, 9)];
    assert!(Exchange::restore(stocks, traded, few, offers, stats, false).is_none());
    let (stocks, traded, _, offers, stats) = tables();
    // one unit too many
    let many = vec![position(1, 0, 50), position(2, 0, 11)];
    assert!(Exchange::restore(stocks, traded, many, offers, stats, false).is_none());
    let (stocks, traded, _, offers, stats) = tables();
    // more than 64 bits hold
    let huge = vec![position(1, 0, u64::MAX), position(2, 0, 61)];
    assert!(Exchange::restore(stocks, traded, huge, offers, stats, false).is_none());
}

#[test]
fn positions_with_duplicates_or_unknown_stocks_are_refused() {
    let (stocks, traded, _, offers, stats) = tables();
    let twice = vec![position(1, 0, 50), position(1, 0, 10)];
    assert!(Exchange::restore(stocks, traded, twice, offers, stats, false).is_none());
    let (stocks, traded, mut positions, offers, stats) = tables();
    positions.push(position(3, 1, 0));
    assert!(Exchange::restore(stocks, traded, positions, offers, stats, false).is_none());
}

#[test]
fn an_invalid_offer_is_refused() {
    for bad in [offer(0, 0, 12), offer(0, 20, 0), offer(1, 20, 12)] {
        let (stocks, traded, positions, _, stats) = tables();
        assert!(Exchange::restore(stocks, traded, positions, vec![bad], stats, false).is_none());
    }
}

#[test]
fn a_stock_that_traded_more_than_the_market_is_refused() {
    let (stocks, _, positions, offers, stats) = tables();
    assert!(Exchange::restore(stocks, vec![6], positions, offers, stats, false).is_none());
}

#[test]
fn a_leader_that_is_no_stock_is_refused() {
    let (stocks, traded, positions, offers, stats) = tables();
    let bad = MarketStats { highest_valued_stock: Some(1), ..stats };
    assert!(Exchange::restore(stocks, traded, positions, offers, bad, false).is_none());
    let (stocks, traded, positions, offers, stats) = tables();
    let bad = MarketStats { most_traded_stock: Some(7), ..stats };
    assert!(Exchange::restore(stocks, traded, positions, offers, bad, false).is_none());
    let (stocks, traded, positions, offers, stats) = tables();
    let good = MarketStats { most_traded_stock: Some(0), highest_valued_stock: Some(0), ..stats };
    assert!(Exchange::restore(stocks, traded, positions, offers, good, false).is_some());
}

#[test]
fn a_stock_is_found_by_its_authority_and_symbol() {
    let (alice, bob) = (key(1), key(2));
    let mut exchange = Exchange::new(false);
    assert_eq!(exchange.find_stock(alice, &"ONE".to_string()), None);
    exchange.mint_stock("One".to_string(), "ONE".to_string(), 100, 10, alice).unwrap();
    exchange.mint_stock("Two".to_string(), "TWO".to_string(), 100, 10, alice).unwrap();
    exchange.mint_stock("Bob's".to_string(), "ONE".to_string(), 100, 10, bob).unwrap();
    assert_eq!(exchange.find_stock(alice, &"ONE".to_string()), Some(0));
    assert_eq!(exchange.find_stock(alice, &"TWO".to_string()), Some(1));
    assert_eq!(exchange.find_stock(bob, &"ONE".to_string()), Some(2));
    assert_eq!(exchange.find_stock(bob, &"TWO".to_string()), None);
    assert_eq!(exchange.find_stock(alice, &"one".to_string()), None);
    assert_eq!(exchange.find_stock(alice, &"".to_string()), None);
}
