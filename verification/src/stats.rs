//! The market statistics aggregator: counters over mints and settled trades,
//! and the two rankings.

use vstd::prelude::*;
use crate::error::ErrorCode;
use crate::state::{MarketStats, StockId};

verus! {

/// Whether `i` is the first place that holds the largest of `values`.
pub open spec fn is_leader(values: Seq<u64>, i: int) -> bool {
    &&& 0 <= i < values.len()
    &&& forall|j: int| 0 <= j < values.len() ==> values[j] <= values[i]
    &&& forall|j: int| 0 <= j < i ==> values[j] < values[i]
}

/// The stock that leads a ranking by `values`: the largest value wins, and
/// among equals the lowest identifier. No stock leads an empty table.
pub open spec fn leader(values: Seq<u64>) -> Option<StockId> {
    if values.len() == 0 {
        None
    } else {
        Some((choose|i: int| is_leader(values, i)) as StockId)
    }
}

/// The statistics before any mint or trade.
pub open spec fn initial_stats() -> MarketStats {
    MarketStats {
        total_stocks: 0,
        total_volume_24h: 0,
        total_transactions: 0,
        highest_valued_stock: None,
        most_traded_stock: None,
    }
}

/// The statistics after one more mint.
pub open spec fn after_mint(stats: MarketStats) -> MarketStats {
    MarketStats { total_stocks: (stats.total_stocks + 1) as u64, ..stats }
}

/// Whether the counters have room for one more trade of `volume`.
pub open spec fn trade_fits(stats: MarketStats, volume: u64) -> bool {
    stats.total_volume_24h + volume <= u64::MAX && stats.total_transactions + 1 <= u64::MAX
}

/// Whether the counters, and the volume of `stock` in `traded`, have room for
/// one more trade of `volume`.
pub open spec fn volume_fits(stats: MarketStats, traded: Seq<u64>, stock: StockId, volume: u64) -> bool {
    trade_fits(stats, volume) && traded[stock as int] + volume <= u64::MAX
}

/// The statistics after one more trade of `volume`.
pub open spec fn after_trade(stats: MarketStats, volume: u64) -> MarketStats {
    MarketStats {
        total_volume_24h: (stats.total_volume_24h + volume) as u64,
        total_transactions: (stats.total_transactions + 1) as u64,
        ..stats
    }
}

/// The statistics with both rankings taken anew from the prices and the
/// traded volumes of all stocks.
pub open spec fn ranked(stats: MarketStats, prices: Seq<u64>, traded: Seq<u64>) -> MarketStats {
    MarketStats {
        highest_valued_stock: leader(prices),
        most_traded_stock: leader(traded),
        ..stats
    }
}

/// A ranking has one leader at most.
pub proof fn lemma_leader_unique(values: Seq<u64>, i: int, j: int)
    requires
        is_leader(values, i),
        is_leader(values, j),
    ensures
        i == j,
{
    if i < j {
        assert(values[i] < values[j]);
        assert(values[j] <= values[i]);
    } else if j < i {
        assert(values[j] < values[i]);
        assert(values[i] <= values[j]);
    }
}

/// A table that is not empty has a leader.
pub proof fn lemma_leader_exists(values: Seq<u64>)
    requires
        values.len() > 0,
    ensures
        exists|i: int| is_leader(values, i),
    decreases values.len(),
{
    if values.len() == 1 {
        assert(is_leader(values, 0));
    } else {
        let front = values.drop_last();
        lemma_leader_exists(front);
        let k = choose|k: int| is_leader(front, k);
        if values.last() > front[k] {
            assert forall|j: int| 0 <= j < values.len() - 1 implies values[j] < values.last() by {
                assert(front[j] <= front[k]);
            }
            assert(is_leader(values, values.len() - 1));
        } else {
            assert forall|j: int| 0 <= j < values.len() implies values[j] <= values[k] by {
                if j < values.len() - 1 {
                    assert(front[j] <= front[k]);
                }
            }
            assert forall|j: int| 0 <= j < k implies values[j] < values[k] by {
                assert(front[j] < front[k]);
            }
            assert(is_leader(values, k));
        }
    }
}

/// The leader of a table is a place in it: the first that holds the largest
/// value.
pub proof fn lemma_leader_is_leader(values: Seq<u64>)
    requires
        0 < values.len() <= u64::MAX,
    ensures
        leader(values) matches Some(i) && is_leader(values, i as int),
{
    lemma_leader_exists(values);
}

/// The place that `is_leader` accepts is the leader.
pub proof fn lemma_leader(values: Seq<u64>, i: int)
    requires
        is_leader(values, i),
    ensures
        leader(values) == Some(i as StockId),
{
    let k = choose|k: int| is_leader(values, k);
    lemma_leader_unique(values, i, k);
}

/// The stock that leads a ranking by `values`, where the value of stock `i`
/// stands at place `i`.
pub fn find_leader(values: &Vec<u64>) -> (found: Option<StockId>)
    ensures
        found == leader(values@),
        found matches Some(i) ==> is_leader(values@, i as int),
{
    if values.len() == 0 {
        return None;
    }
    let mut best: usize = 0;
    let mut i: usize = 1;
    while i < values.len()
        invariant
            1 <= i <= values.len(),
            is_leader(values@.take(i as int), best as int),
        decreases values.len() - i,
    {
        if values[i] > values[best] {
            best = i;
        }
        i += 1;
    }
    proof {
        assert(values@.take(i as int) =~= values@);
        lemma_leader(values@, best as int);
    }
    Some(best as u64)
}

impl MarketStats {
    /// The statistics before any mint or trade.
    pub fn new() -> (stats: MarketStats)
        ensures
            stats == initial_stats(),
    {
        MarketStats {
            total_stocks: 0,
            total_volume_24h: 0,
            total_transactions: 0,
            highest_valued_stock: None,
            most_traded_stock: None,
        }
    }

    /// Counts one more minted stock. The counter must have room: it counts
    /// the stocks of a table, which a machine cannot fill to that number.
    pub fn on_mint(&mut self)
        requires
            old(self).total_stocks < u64::MAX,
        ensures
            *final(self) == after_mint(*old(self)),
    {
        self.total_stocks = self.total_stocks + 1;
    }

    /// Takes note of one more settled trade of `stock` that moved `volume` in
    /// funds: the counters and the stock's own volume in `traded` grow, and
    /// both rankings are taken anew. `prices` holds the price of every stock
    /// after the trade and `traded` its traded volume, each at the place of
    /// the stock's identifier. Fails with `ArithmeticOverflow`, and changes
    /// nothing, where a counter or the stock's volume would not hold the new
    /// total.
    pub fn on_trade(&mut self, traded: &mut Vec<u64>, prices: &Vec<u64>, stock: StockId, volume: u64) -> (r:
        Result<(), ErrorCode>)
        requires
            stock < old(traded)@.len(),
        ensures
            match r {
                Ok(()) => volume_fits(*old(self), old(traded)@, stock, volume) && final(traded)@
                    == old(traded)@.update(
                    stock as int,
                    (old(traded)@[stock as int] + volume) as u64,
                ) && *final(self) == ranked(after_trade(*old(self), volume), prices@, final(traded)@),
                Err(e) => e == ErrorCode::ArithmeticOverflow && !volume_fits(
                    *old(self),
                    old(traded)@,
                    stock,
                    volume,
                ) && *final(self) == *old(self) && final(traded)@ == old(traded)@,
            },
    {
        assert(stock < traded.len());
        let place = stock as usize;
        let market_volume = match self.total_volume_24h.checked_add(volume) {
            Some(total) => total,
            None => {
                return Err(ErrorCode::ArithmeticOverflow);
            },
        };
        let trades = match self.total_transactions.checked_add(1) {
            Some(count) => count,
            None => {
                return Err(ErrorCode::ArithmeticOverflow);
            },
        };
        let stock_volume = match traded[place].checked_add(volume) {
            Some(total) => total,
            None => {
                return Err(ErrorCode::ArithmeticOverflow);
            },
        };
        traded.set(place, stock_volume);
        self.total_volume_24h = market_volume;
        self.total_transactions = trades;
        self.highest_valued_stock = find_leader(prices);
        self.most_traded_stock = find_leader(traded);
        Ok(())
    }
}

} // verus!
