//! The position ledger: who holds how many units of which stock, and at what
//! average price.

use vstd::prelude::*;
use crate::error::ErrorCode;
use crate::state::{Pubkey, StockId, StockPosition};

verus! {

/// Whether `p` is the holding of `owner` in `stock`.
pub open spec fn is_position_of(p: StockPosition, owner: Pubkey, stock: StockId) -> bool {
    p.owner == owner && p.stock == stock
}

/// Whether the table holds a record for `owner` and `stock`.
pub open spec fn has_position(ps: Seq<StockPosition>, owner: Pubkey, stock: StockId) -> bool {
    exists|i: int| 0 <= i < ps.len() && is_position_of(#[trigger] ps[i], owner, stock)
}

/// The place of the record for `owner` and `stock`, where there is one.
pub open spec fn position_index(ps: Seq<StockPosition>, owner: Pubkey, stock: StockId) -> int {
    choose|i: int| 0 <= i < ps.len() && is_position_of(#[trigger] ps[i], owner, stock)
}

/// The units that `owner` holds of `stock`: zero without a record.
pub open spec fn amount_held(ps: Seq<StockPosition>, owner: Pubkey, stock: StockId) -> u64 {
    if has_position(ps, owner, stock) {
        ps[position_index(ps, owner, stock)].amount
    } else {
        0
    }
}

/// The record of `owner` for `stock`, if the table holds one.
pub open spec fn record_of(ps: Seq<StockPosition>, owner: Pubkey, stock: StockId) -> Option<
    StockPosition,
> {
    if has_position(ps, owner, stock) {
        Some(ps[position_index(ps, owner, stock)])
    } else {
        None
    }
}

/// No owner has two records for one stock.
pub open spec fn unique_positions(ps: Seq<StockPosition>) -> bool {
    forall|i: int, j: int|
        0 <= i < j < ps.len() ==> !is_position_of(#[trigger] ps[i], (#[trigger] ps[j]).owner, ps[j].stock)
}

/// The units of `stock` held over all owners.
pub open spec fn held_total(ps: Seq<StockPosition>, stock: StockId) -> nat
    decreases ps.len(),
{
    if ps.len() == 0 {
        0
    } else {
        held_total(ps.drop_last(), stock) + if ps.last().stock == stock {
            ps.last().amount as nat
        } else {
            0
        }
    }
}

/// The volume-weighted average price of `old_amount` units bought at
/// `old_entry` and `amount` units bought at `price`, rounded down.
pub open spec fn vwap(old_amount: u64, old_entry: u64, amount: u64, price: u64) -> int {
    (old_amount * old_entry + amount * price) / (old_amount + amount)
}

/// The table after `amount` units of `stock` were taken from `owner`.
pub open spec fn debited(ps: Seq<StockPosition>, owner: Pubkey, stock: StockId, amount: u64) -> Seq<
    StockPosition,
> {
    if has_position(ps, owner, stock) {
        let i = position_index(ps, owner, stock);
        ps.update(
            i,
            StockPosition {
                owner,
                stock,
                amount: (ps[i].amount - amount) as u64,
                entry_price: ps[i].entry_price,
            },
        )
    } else {
        ps
    }
}

/// The table after `amount` units of `stock`, bought at `price`, were given to
/// `owner`: a first acquisition makes the record, a later one averages the
/// entry price.
pub open spec fn credited(
    ps: Seq<StockPosition>,
    owner: Pubkey,
    stock: StockId,
    amount: u64,
    price: u64,
) -> Seq<StockPosition> {
    if has_position(ps, owner, stock) {
        let i = position_index(ps, owner, stock);
        ps.update(
            i,
            StockPosition {
                owner,
                stock,
                amount: (ps[i].amount + amount) as u64,
                entry_price: vwap(ps[i].amount, ps[i].entry_price, amount, price) as u64,
            },
        )
    } else {
        ps.push(StockPosition { owner, stock, amount, entry_price: price })
    }
}

/// In a table without duplicates a record is found at its own place.
pub proof fn lemma_position_index(ps: Seq<StockPosition>, i: int)
    requires
        unique_positions(ps),
        0 <= i < ps.len(),
    ensures
        has_position(ps, ps[i].owner, ps[i].stock),
        position_index(ps, ps[i].owner, ps[i].stock) == i,
        amount_held(ps, ps[i].owner, ps[i].stock) == ps[i].amount,
{
    assert(is_position_of(ps[i], ps[i].owner, ps[i].stock));
    let k = position_index(ps, ps[i].owner, ps[i].stock);
    assert(0 <= k < ps.len() && is_position_of(ps[k], ps[i].owner, ps[i].stock));
    if k < i {
        assert(!is_position_of(ps[k], ps[i].owner, ps[i].stock));
    } else if i < k {
        assert(!is_position_of(ps[i], ps[k].owner, ps[k].stock));
    }
}

/// A new record adds its units to the total of its stock and to no other.
pub proof fn lemma_held_total_push(ps: Seq<StockPosition>, p: StockPosition, stock: StockId)
    ensures
        held_total(ps.push(p), stock) == held_total(ps, stock) + if p.stock == stock {
            p.amount as nat
        } else {
            0
        },
{
    assert(ps.push(p).drop_last() =~= ps);
}

/// Replacing a record by one for the same stock moves the total of that stock
/// by the difference of the amounts, and no other total.
pub proof fn lemma_held_total_update(ps: Seq<StockPosition>, i: int, p: StockPosition, stock: StockId)
    requires
        0 <= i < ps.len(),
        p.stock == ps[i].stock,
    ensures
        held_total(ps.update(i, p), stock) == held_total(ps, stock) + if p.stock == stock {
            p.amount - ps[i].amount
        } else {
            0
        },
    decreases ps.len(),
{
    let qs = ps.update(i, p);
    if i == ps.len() - 1 {
        assert(qs.drop_last() =~= ps.drop_last());
    } else {
        assert(qs.drop_last() =~= ps.drop_last().update(i, p));
        lemma_held_total_update(ps.drop_last(), i, p, stock);
    }
}

/// No record holds more than the total of its stock.
pub proof fn lemma_held_total_bound(ps: Seq<StockPosition>, i: int)
    requires
        0 <= i < ps.len(),
    ensures
        ps[i].amount <= held_total(ps, ps[i].stock),
    decreases ps.len(),
{
    if i < ps.len() - 1 {
        lemma_held_total_bound(ps.drop_last(), i);
    }
}

/// No owner holds more of a stock than the total of that stock.
pub proof fn lemma_amount_held_bound(ps: Seq<StockPosition>, owner: Pubkey, stock: StockId)
    ensures
        amount_held(ps, owner, stock) <= held_total(ps, stock),
{
    if has_position(ps, owner, stock) {
        lemma_held_total_bound(ps, position_index(ps, owner, stock));
    }
}

/// The records at the front of a table hold no more of a stock than the
/// whole table.
pub proof fn lemma_held_total_prefix(ps: Seq<StockPosition>, n: int, stock: StockId)
    requires
        0 <= n <= ps.len(),
    ensures
        held_total(ps.take(n), stock) <= held_total(ps, stock),
    decreases ps.len(),
{
    if n == ps.len() {
        assert(ps.take(n) =~= ps);
    } else {
        assert(ps.take(n) =~= ps.drop_last().take(n));
        lemma_held_total_prefix(ps.drop_last(), n, stock);
    }
}

/// A stock that no record names has a total of zero.
pub proof fn lemma_held_total_absent(ps: Seq<StockPosition>, stock: StockId)
    requires
        forall|i: int| 0 <= i < ps.len() ==> (#[trigger] ps[i]).stock != stock,
    ensures
        held_total(ps, stock) == 0,
    decreases ps.len(),
{
    if ps.len() > 0 {
        lemma_held_total_absent(ps.drop_last(), stock);
    }
}

/// Replacing a record by another for the same owner and stock keeps the table
/// free of duplicates and changes the record of that owner for that stock, and
/// no other.
pub proof fn lemma_replace_record(ps: Seq<StockPosition>, i: int, p: StockPosition)
    requires
        unique_positions(ps),
        0 <= i < ps.len(),
        is_position_of(p, ps[i].owner, ps[i].stock),
    ensures
        unique_positions(ps.update(i, p)),
        record_of(ps.update(i, p), p.owner, p.stock) == Some(p),
        forall|o: Pubkey, s: StockId|
            !(o == p.owner && s == p.stock) ==> #[trigger] record_of(ps.update(i, p), o, s)
                == record_of(ps, o, s),
{
    let qs = ps.update(i, p);
    assert forall|a: int, b: int| 0 <= a < b < qs.len() implies !is_position_of(
        #[trigger] qs[a],
        (#[trigger] qs[b]).owner,
        qs[b].stock,
    ) by {
        assert(!is_position_of(ps[a], ps[b].owner, ps[b].stock));
    }
    lemma_position_index(qs, i);
    assert forall|o: Pubkey, s: StockId| !(o == p.owner && s == p.stock) implies #[trigger] record_of(
        qs,
        o,
        s,
    ) == record_of(ps, o, s) by {
        if has_position(ps, o, s) {
            let k = position_index(ps, o, s);
            assert(qs[k] == ps[k]);
            lemma_position_index(ps, k);
            lemma_position_index(qs, k);
        } else if has_position(qs, o, s) {
            let k = position_index(qs, o, s);
            assert(is_position_of(ps[k], o, s));
        }
    }
}

/// A record for an owner and stock that had none keeps the table free of
/// duplicates and is the record of that owner for that stock; every other
/// record is as it was.
pub proof fn lemma_new_record(ps: Seq<StockPosition>, p: StockPosition)
    requires
        unique_positions(ps),
        !has_position(ps, p.owner, p.stock),
    ensures
        unique_positions(ps.push(p)),
        record_of(ps.push(p), p.owner, p.stock) == Some(p),
        forall|o: Pubkey, s: StockId|
            !(o == p.owner && s == p.stock) ==> #[trigger] record_of(ps.push(p), o, s) == record_of(
                ps,
                o,
                s,
            ),
{
    let qs = ps.push(p);
    assert forall|a: int, b: int| 0 <= a < b < qs.len() implies !is_position_of(
        #[trigger] qs[a],
        (#[trigger] qs[b]).owner,
        qs[b].stock,
    ) by {
        if b < ps.len() {
            assert(!is_position_of(ps[a], ps[b].owner, ps[b].stock));
        } else {
            assert(!is_position_of(ps[a], p.owner, p.stock));
        }
    }
    lemma_position_index(qs, ps.len() as int);
    assert forall|o: Pubkey, s: StockId| !(o == p.owner && s == p.stock) implies #[trigger] record_of(
        qs,
        o,
        s,
    ) == record_of(ps, o, s) by {
        if has_position(ps, o, s) {
            let k = position_index(ps, o, s);
            assert(qs[k] == ps[k]);
            lemma_position_index(ps, k);
            lemma_position_index(qs, k);
        } else if has_position(qs, o, s) {
            let k = position_index(qs, o, s);
            assert(is_position_of(ps[k], o, s));
        }
    }
}

/// The average lies between the two prices, and a first acquisition is
/// entered at its own price.
pub proof fn lemma_vwap_bounds(old_amount: u64, old_entry: u64, amount: u64, price: u64)
    requires
        amount > 0,
    ensures
        old_entry <= price ==> old_entry <= vwap(old_amount, old_entry, amount, price) <= price,
        price <= old_entry ==> price <= vwap(old_amount, old_entry, amount, price) <= old_entry,
        old_amount == 0 ==> vwap(old_amount, old_entry, amount, price) == price,
{
    let a = old_amount as int;
    let e = old_entry as int;
    let b = amount as int;
    let p = price as int;
    assert(e <= p ==> e <= (a * e + b * p) / (a + b) <= p) by (nonlinear_arith)
        requires
            0 <= a,
            0 < b,
            0 <= e,
            0 <= p,
    ;
    assert(p <= e ==> p <= (a * e + b * p) / (a + b) <= e) by (nonlinear_arith)
        requires
            0 <= a,
            0 < b,
            0 <= e,
            0 <= p,
    ;
    assert(a == 0 ==> (a * e + b * p) / (a + b) == p) by (nonlinear_arith)
        requires
            0 < b,
            0 <= p,
    ;
}

/// The record of an owner after `amount` units were taken from it: the entry
/// price stays.
pub open spec fn debited_record(record: Option<StockPosition>, amount: u64) -> Option<StockPosition> {
    match record {
        Some(p) => Some(StockPosition { amount: (p.amount - amount) as u64, ..p }),
        None => None,
    }
}

/// The record of `owner` for `stock` after `amount` units bought at `price`
/// were added to it.
pub open spec fn credited_record(
    record: Option<StockPosition>,
    owner: Pubkey,
    stock: StockId,
    amount: u64,
    price: u64,
) -> StockPosition {
    match record {
        Some(p) => StockPosition {
            owner,
            stock,
            amount: (p.amount + amount) as u64,
            entry_price: vwap(p.amount, p.entry_price, amount, price) as u64,
        },
        None => StockPosition { owner, stock, amount, entry_price: price },
    }
}

/// Taking units that the owner holds lowers that holding and the total of the
/// stock by the amount taken, and leaves every other record and total alone.
pub proof fn lemma_debited(ps: Seq<StockPosition>, owner: Pubkey, stock: StockId, amount: u64)
    requires
        unique_positions(ps),
        amount <= amount_held(ps, owner, stock),
    ensures
        unique_positions(debited(ps, owner, stock, amount)),
        debited(ps, owner, stock, amount).len() == ps.len(),
        record_of(debited(ps, owner, stock, amount), owner, stock) == debited_record(
            record_of(ps, owner, stock),
            amount,
        ),
        amount_held(debited(ps, owner, stock, amount), owner, stock) == amount_held(ps, owner, stock)
            - amount,
        forall|o: Pubkey, s: StockId|
            !(o == owner && s == stock) ==> #[trigger] record_of(
                debited(ps, owner, stock, amount),
                o,
                s,
            ) == record_of(ps, o, s),
        forall|t: StockId| #[trigger]
            held_total(debited(ps, owner, stock, amount), t) == held_total(ps, t) - if t == stock {
                amount as int
            } else {
                0
            },
        forall|i: int|
            0 <= i < ps.len() ==> (#[trigger] debited(ps, owner, stock, amount)[i]).stock
                == ps[i].stock,
{
    if has_position(ps, owner, stock) {
        let i = position_index(ps, owner, stock);
        let p = StockPosition {
            owner,
            stock,
            amount: (ps[i].amount - amount) as u64,
            entry_price: ps[i].entry_price,
        };
        lemma_replace_record(ps, i, p);
        assert forall|t: StockId| #[trigger]
            held_total(ps.update(i, p), t) == held_total(ps, t) - if t == stock {
                amount as int
            } else {
                0
            } by {
            lemma_held_total_update(ps, i, p, t);
        }
    }
}

/// Giving units to an owner raises that holding and the total of the stock by
/// the amount given, enters them at the averaged price, and leaves every
/// other record and total alone.
pub proof fn lemma_credited(
    ps: Seq<StockPosition>,
    owner: Pubkey,
    stock: StockId,
    amount: u64,
    price: u64,
)
    requires
        unique_positions(ps),
        amount_held(ps, owner, stock) + amount <= u64::MAX,
    ensures
        unique_positions(credited(ps, owner, stock, amount, price)),
        record_of(credited(ps, owner, stock, amount, price), owner, stock) == Some(
            credited_record(record_of(ps, owner, stock), owner, stock, amount, price),
        ),
        amount_held(credited(ps, owner, stock, amount, price), owner, stock) == amount_held(
            ps,
            owner,
            stock,
        ) + amount,
        forall|o: Pubkey, s: StockId|
            !(o == owner && s == stock) ==> #[trigger] record_of(
                credited(ps, owner, stock, amount, price),
                o,
                s,
            ) == record_of(ps, o, s),
        forall|t: StockId| #[trigger]
            held_total(credited(ps, owner, stock, amount, price), t) == held_total(ps, t) + if t
                == stock {
                amount as int
            } else {
                0
            },
        forall|i: int|
            0 <= i < credited(ps, owner, stock, amount, price).len() ==> (#[trigger] credited(
                ps,
                owner,
                stock,
                amount,
                price,
            )[i]).stock == stock || (i < ps.len() && credited(ps, owner, stock, amount, price)[i].stock
                == ps[i].stock),
{
    if has_position(ps, owner, stock) {
        let i = position_index(ps, owner, stock);
        let p = StockPosition {
            owner,
            stock,
            amount: (ps[i].amount + amount) as u64,
            entry_price: vwap(ps[i].amount, ps[i].entry_price, amount, price) as u64,
        };
        lemma_replace_record(ps, i, p);
        assert forall|t: StockId| #[trigger]
            held_total(ps.update(i, p), t) == held_total(ps, t) + if t == stock {
                amount as int
            } else {
                0
            } by {
            lemma_held_total_update(ps, i, p, t);
        }
    } else {
        let p = StockPosition { owner, stock, amount, entry_price: price };
        lemma_new_record(ps, p);
        assert forall|t: StockId| #[trigger]
            held_total(ps.push(p), t) == held_total(ps, t) + if t == stock {
                amount as int
            } else {
                0
            } by {
            lemma_held_total_push(ps, p, t);
        }
    }
}

/// The volume-weighted average price of `old_amount` units bought at
/// `old_entry` and `amount` units bought at `price`, rounded down.
pub fn average_price(old_amount: u64, old_entry: u64, amount: u64, price: u64) -> (average: u64)
    requires
        amount > 0,
        old_amount + amount <= u64::MAX,
    ensures
        average == vwap(old_amount, old_entry, amount, price),
{
    proof {
        lemma_vwap_bounds(old_amount, old_entry, amount, price);
        let a = old_amount as int;
        let e = old_entry as int;
        let b = amount as int;
        let p = price as int;
        assert(a * e + b * p <= 0xffff_ffff_ffff_ffff * 0xffff_ffff_ffff_ffff && 0 <= a * e && 0
            <= b * p) by (nonlinear_arith)
            requires
                0 <= a,
                0 < b,
                a + b <= 0xffff_ffff_ffff_ffff,
                0 <= e <= 0xffff_ffff_ffff_ffff,
                0 <= p <= 0xffff_ffff_ffff_ffff,
        ;
    }
    let paid: u128 = (old_amount as u128) * (old_entry as u128) + (amount as u128) * (price as u128);
    let units: u128 = (old_amount as u128) + (amount as u128);
    (paid / units) as u64
}

/// Whether no owner has two of the `records` for one stock.
pub fn no_duplicates(records: &Vec<StockPosition>) -> (ok: bool)
    ensures
        ok == unique_positions(records@),
{
    let mut j: usize = 0;
    while j < records.len()
        invariant
            j <= records.len(),
            forall|a: int, b: int|
                0 <= a < b < j ==> !is_position_of(
                    #[trigger] records[a],
                    (#[trigger] records[b]).owner,
                    records[b].stock,
                ),
        decreases records.len() - j,
    {
        let mut i: usize = 0;
        while i < j
            invariant
                i <= j < records.len(),
                forall|a: int|
                    0 <= a < i ==> !is_position_of(
                        #[trigger] records[a],
                        records[j as int].owner,
                        records[j as int].stock,
                    ),
            decreases j - i,
        {
            if records[i].owner == records[j].owner && records[i].stock == records[j].stock {
                assert(is_position_of(records[i as int], records[j as int].owner, records[j as int].stock));
                return false;
            }
            i += 1;
        }
        j += 1;
    }
    true
}

/// The units of `stock` that the `records` hold over all owners, or `None`
/// where they come to more than `limit`.
pub fn units_held(records: &Vec<StockPosition>, stock: StockId, limit: u64) -> (units: Option<u64>)
    ensures
        match units {
            Some(total) => total == held_total(records@, stock) && total <= limit,
            None => held_total(records@, stock) > limit,
        },
{
    let mut total: u64 = 0;
    let mut i: usize = 0;
    while i < records.len()
        invariant
            i <= records.len(),
            total == held_total(records@.take(i as int), stock),
            total <= limit,
        decreases records.len() - i,
    {
        proof {
            assert(records@.take(i + 1).drop_last() =~= records@.take(i as int));
            lemma_held_total_prefix(records@, i + 1, stock);
        }
        if records[i].stock == stock {
            if records[i].amount > limit - total {
                return None;
            }
            total = total + records[i].amount;
        }
        i += 1;
    }
    assert(records@.take(i as int) =~= records@);
    Some(total)
}

/// The table of positions: at most one record for an owner and a stock.
pub struct PositionLedger {
    records: Vec<StockPosition>,
}

impl View for PositionLedger {
    type V = Seq<StockPosition>;

    closed spec fn view(&self) -> Seq<StockPosition> {
        self.records@
    }
}

impl PositionLedger {
    /// The ledger holds no owner twice for one stock.
    pub open spec fn wf(&self) -> bool {
        unique_positions(self@)
    }

    /// A ledger without records.
    pub fn new() -> (ledger: PositionLedger)
        ensures
            ledger@ == Seq::<StockPosition>::empty(),
            ledger.wf(),
    {
        PositionLedger { records: Vec::new() }
    }

    /// The ledger that holds `records`, or `None` where an owner has two of
    /// them for one stock.
    pub fn from_records(records: Vec<StockPosition>) -> (ledger: Option<PositionLedger>)
        ensures
            match ledger {
                Some(ledger) => ledger.wf() && ledger@ == records@,
                None => !unique_positions(records@),
            },
    {
        if no_duplicates(&records) {
            Some(PositionLedger { records })
        } else {
            None
        }
    }

    /// The records of the ledger, in the order in which they were made.
    pub fn records(&self) -> (records: &Vec<StockPosition>)
        ensures
            records@ == self@,
    {
        &self.records
    }

    /// The place of the record for `owner` and `stock`, if the ledger holds one.
    fn find(&self, owner: Pubkey, stock: StockId) -> (found: Option<usize>)
        requires
            self.wf(),
        ensures
            match found {
                Some(i) => i < self@.len() && has_position(self@, owner, stock) && i
                    == position_index(self@, owner, stock),
                None => !has_position(self@, owner, stock),
            },
    {
        let mut i: usize = 0;
        while i < self.records.len()
            invariant
                self.wf(),
                i <= self.records.len(),
                forall|j: int| 0 <= j < i ==> !is_position_of(#[trigger] self.records[j], owner, stock),
            decreases self.records.len() - i,
        {
            if self.records[i].owner == owner && self.records[i].stock == stock {
                proof {
                    lemma_position_index(self@, i as int);
                }
                return Some(i);
            }
            i += 1;
        }
        None
    }

    /// The record of `owner` for `stock`, if there is one.
    pub fn position(&self, owner: Pubkey, stock: StockId) -> (found: Option<StockPosition>)
        requires
            self.wf(),
        ensures
            found == record_of(self@, owner, stock),
    {
        match self.find(owner, stock) {
            Some(i) => Some(self.records[i]),
            None => None,
        }
    }

    /// The units that `owner` holds of `stock`: zero without a record.
    pub fn held(&self, owner: Pubkey, stock: StockId) -> (amount: u64)
        requires
            self.wf(),
        ensures
            amount == amount_held(self@, owner, stock),
    {
        match self.find(owner, stock) {
            Some(i) => self.records[i].amount,
            None => 0,
        }
    }

    /// Takes `amount` units of `stock` from `owner`, who holds as many. The
    /// record stays, at zero if need be, with its entry price.
    pub fn withdraw(&mut self, owner: Pubkey, stock: StockId, amount: u64)
        requires
            old(self).wf(),
            amount <= amount_held(old(self)@, owner, stock),
        ensures
            final(self).wf(),
            final(self)@ == debited(old(self)@, owner, stock, amount),
    {
        proof {
            lemma_debited(self@, owner, stock, amount);
        }
        match self.find(owner, stock) {
            Some(i) => {
                let p = self.records[i];
                self.records.set(
                    i,
                    StockPosition {
                        owner,
                        stock,
                        amount: p.amount - amount,
                        entry_price: p.entry_price,
                    },
                );
            },
            None => {},
        }
    }

    /// Takes `amount` units of `stock` from `owner`, or fails with
    /// `InsufficientStockBalance` and changes nothing where `owner` holds
    /// fewer. The record stays, at zero if need be, with its entry price.
    pub fn debit(&mut self, owner: Pubkey, stock: StockId, amount: u64) -> (r: Result<(), ErrorCode>)
        requires
            old(self).wf(),
        ensures
            final(self).wf(),
            match r {
                Ok(()) => amount <= amount_held(old(self)@, owner, stock) && final(self)@ == debited(
                    old(self)@,
                    owner,
                    stock,
                    amount,
                ),
                Err(e) => e == ErrorCode::InsufficientStockBalance && amount > amount_held(
                    old(self)@,
                    owner,
                    stock,
                ) && final(self)@ == old(self)@,
            },
    {
        if amount > self.held(owner, stock) {
            return Err(ErrorCode::InsufficientStockBalance);
        }
        self.withdraw(owner, stock, amount);
        Ok(())
    }

    /// Gives `amount` units of `stock`, bought at `price`, to `owner`. A first
    /// acquisition makes the record at that price; a later one averages the
    /// entry price by volume.
    pub fn credit(&mut self, owner: Pubkey, stock: StockId, amount: u64, price: u64)
        requires
            old(self).wf(),
            amount > 0,
            amount_held(old(self)@, owner, stock) + amount <= u64::MAX,
        ensures
            final(self).wf(),
            final(self)@ == credited(old(self)@, owner, stock, amount, price),
    {
        proof {
            lemma_credited(self@, owner, stock, amount, price);
        }
        match self.find(owner, stock) {
            Some(i) => {
                let p = self.records[i];
                let entry_price = average_price(p.amount, p.entry_price, amount, price);
                self.records.set(i, StockPosition { owner, stock, amount: p.amount + amount, entry_price });
            },
            None => {
                self.records.push(StockPosition { owner, stock, amount, entry_price: price });
            },
        }
    }
}

} // verus!
