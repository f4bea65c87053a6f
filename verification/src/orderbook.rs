//! The order book: one price-to-quantity map per side, bounded in depth.

use crate::levels::{
    all_positive, apply_batch, apply_delta, apply_deltas, best_levels, is_worst, outranks,
    worst_price, PriceLevel, Side,
};
use crate::levels::{
    lemma_apply_deltas_preserves, lemma_best_levels_keeps_best, lemma_worst_exists,
    lemma_worst_unique,
};
use crate::decode::{
    decode_rows, first_fault, is_first_fault_of, market_decodable, rows_decodable, rows_levels,
    DecodeError,
};
use crate::models::{MarketData, StringOrU64};
use std::collections::BTreeMap;
use vstd::prelude::*;
use vstd::std_specs::cmp::OrdSpec;
use vstd::std_specs::iter::IteratorSpec;

verus! {

/// Depth of a book made by [`OrderBook::new`].
pub const DEFAULT_DEPTH: usize = 5;

/// The best levels of both sides, each ordered best to worst.
#[derive(Clone, Debug, PartialEq, Eq)]
pub struct Snapshot {
    pub bids: Vec<PriceLevel>,
    pub asks: Vec<PriceLevel>,
}

/// `levels` lists exactly the levels of `m`, each once, best price first.
pub open spec fn is_ranking_of(side: Side, levels: Seq<PriceLevel>, m: Map<u64, u64>) -> bool {
    &&& levels.len() == m.len()
    &&& forall|i: int|
        0 <= i < levels.len() ==> m.contains_key(#[trigger] levels[i].price) && m[levels[i].price]
            == levels[i].quantity
    &&& forall|k: u64|
        m.contains_key(k) ==> exists|i: int|
            0 <= i < levels.len() && #[trigger] levels[i].price == k
    &&& forall|i: int, j: int|
        0 <= i < j < levels.len() ==> outranks(
            side,
            #[trigger] levels[i].price,
            #[trigger] levels[j].price,
        )
}

/// Two rankings of one map agree on their first `n` places.
proof fn lemma_rankings_agree(
    side: Side,
    a: Seq<PriceLevel>,
    b: Seq<PriceLevel>,
    m: Map<u64, u64>,
    n: int,
)
    requires
        is_ranking_of(side, a, m),
        is_ranking_of(side, b, m),
        0 <= n <= a.len(),
    ensures
        forall|i: int| 0 <= i < n ==> a[i] == b[i],
    decreases n,
{
    if n > 0 {
        lemma_rankings_agree(side, a, b, m, n - 1);
        let i = n - 1;
        assert(m.contains_key(a[i].price));
        assert(m.contains_key(b[i].price));
        let j = choose|j: int| 0 <= j < b.len() && #[trigger] b[j].price == a[i].price;
        let k = choose|k: int| 0 <= k < a.len() && #[trigger] a[k].price == b[i].price;
        if j < i {
            assert(a[j] == b[j]);
            assert(outranks(side, a[j].price, a[i].price));
        }
        if k < i {
            assert(a[k] == b[k]);
            assert(outranks(side, b[k].price, b[i].price));
        }
        if j > i {
            assert(outranks(side, b[i].price, b[j].price));
        }
        if k > i {
            assert(outranks(side, a[i].price, a[k].price));
        }
        assert(a[i].price == b[i].price);
        assert(a[i].quantity == m[a[i].price]);
        assert(b[i].quantity == m[b[i].price]);
    }
}

/// A map has one ranking only: two sequences that both list its levels best
/// first are the same sequence.
pub proof fn lemma_ranking_unique(
    side: Side,
    a: Seq<PriceLevel>,
    b: Seq<PriceLevel>,
    m: Map<u64, u64>,
)
    requires
        is_ranking_of(side, a, m),
        is_ranking_of(side, b, m),
    ensures
        a == b,
{
    lemma_rankings_agree(side, a, b, m, a.len() as int);
    assert(a =~= b);
}

/// `snap` shows both sides of `book` as they stand, each ordered best to
/// worst.
pub open spec fn is_snapshot_of(snap: Snapshot, book: OrderBook) -> bool {
    &&& is_ranking_of(Side::Bid, snap.bids@, book.bid_levels())
    &&& is_ranking_of(Side::Ask, snap.asks@, book.ask_levels())
}

/// `std::collections::BTreeMap::len`, with the length stated over the view.
fn map_len(m: &BTreeMap<u64, u64>) -> (n: usize)
    ensures
        n == m@.len(),
        m@.dom().finite(),
{
    broadcast use vstd::std_specs::btree::group_btree_axioms;
    broadcast use vstd::laws_cmp::group_laws_cmp;

    m.len()
}

/// `std::collections::BTreeMap::insert`, with the effect stated over the view.
fn map_insert(m: &mut BTreeMap<u64, u64>, price: u64, quantity: u64)
    ensures
        final(m)@ == old(m)@.insert(price, quantity),
{
    broadcast use vstd::std_specs::btree::group_btree_axioms;
    broadcast use vstd::laws_cmp::group_laws_cmp;

    let _ = m.insert(price, quantity);
}

/// `std::collections::BTreeMap::remove`, with the effect stated over the view.
fn map_remove(m: &mut BTreeMap<u64, u64>, price: u64)
    ensures
        final(m)@ == old(m)@.remove(price),
{
    broadcast use vstd::std_specs::btree::group_btree_axioms;
    broadcast use vstd::laws_cmp::group_laws_cmp;

    let _ = m.remove(&price);
}

/// `std::collections::BTreeMap::pop_first`: takes out the entry with the
/// least key and returns it. On an empty map it returns `None` and changes
/// nothing.
#[verifier::external_body]
fn pop_lowest(m: &mut BTreeMap<u64, u64>) -> (gone: Option<(u64, u64)>)
    ensures
        match gone {
            Some(entry) => {
                &&& old(m)@.contains_key(entry.0)
                &&& old(m)@[entry.0] == entry.1
                &&& forall|k: u64| old(m)@.contains_key(k) ==> entry.0 <= k
                &&& final(m)@ == old(m)@.remove(entry.0)
            },
            None => old(m)@.dom() =~= Set::<u64>::empty() && final(m)@ == old(m)@,
        },
{
    m.pop_first()
}

/// `std::collections::BTreeMap::pop_last`: takes out the entry with the
/// greatest key and returns it. On an empty map it returns `None` and
/// changes nothing.
#[verifier::external_body]
fn pop_highest(m: &mut BTreeMap<u64, u64>) -> (gone: Option<(u64, u64)>)
    ensures
        match gone {
            Some(entry) => {
                &&& old(m)@.contains_key(entry.0)
                &&& old(m)@[entry.0] == entry.1
                &&& forall|k: u64| old(m)@.contains_key(k) ==> k <= entry.0
                &&& final(m)@ == old(m)@.remove(entry.0)
            },
            None => old(m)@.dom() =~= Set::<u64>::empty() && final(m)@ == old(m)@,
        },
{
    m.pop_last()
}

/// Applies the updates to the map, first to last.
fn apply_to(m: &mut BTreeMap<u64, u64>, deltas: &Vec<PriceLevel>)
    ensures
        final(m)@ == apply_deltas(old(m)@, deltas@),
{
    let ghost start = m@;
    let mut i: usize = 0;
    while i < deltas.len()
        invariant
            i <= deltas.len(),
            m@ == apply_deltas(start, deltas@.take(i as int)),
        decreases deltas.len() - i,
    {
        let d = deltas[i];
        if d.quantity == 0 {
            map_remove(m, d.price);
        } else {
            map_insert(m, d.price, d.quantity);
        }
        proof {
            let next = deltas@.take(i + 1);
            assert(next.drop_last() == deltas@.take(i as int));
            assert(next.last() == d);
        }
        i += 1;
    }
    proof {
        assert(deltas@.take(i as int) == deltas@);
    }
}

/// Removes the worst price, one at a time, while more than `n` levels remain.
fn trim_side(m: &mut BTreeMap<u64, u64>, side: Side, n: usize)
    ensures
        final(m)@ == best_levels(side, old(m)@, n as nat),
{
    let ghost start = m@;
    while map_len(m) > n
        invariant
            best_levels(side, m@, n as nat) == best_levels(side, start, n as nat),
        decreases m@.len(),
    {
        let ghost before = m@;
        proof {
            lemma_worst_exists(side, before);
        }
        let gone = match side {
            Side::Bid => pop_lowest(m),
            Side::Ask => pop_highest(m),
        };
        proof {
            match gone {
                Some(entry) => {
                    assert(is_worst(side, before, entry.0));
                    lemma_worst_unique(side, before, entry.0, worst_price(side, before));
                },
                None => {
                    assert(!before.dom().contains(worst_price(side, before)));
                },
            }
        }
    }
}

/// The levels of the map in ascending order of price.
fn ascending_levels(m: &BTreeMap<u64, u64>) -> (out: Vec<PriceLevel>)
    ensures
        is_ranking_of(Side::Ask, out@, m@),
{
    broadcast use vstd::std_specs::btree::group_btree_axioms;
    broadcast use vstd::laws_cmp::group_laws_cmp;

    let mut out: Vec<PriceLevel> = Vec::new();
    for kv in it: m.iter()
        invariant
            out@.len() == it.index(),
            it.seq().len() == m@.len(),
            forall|i: int|
                0 <= i < out@.len() ==> out@[i].price == *it.seq()[i].0 && out@[i].quantity
                    == *it.seq()[i].1,
            forall|i: int|
                0 <= i < it.seq().len() ==> m@.contains_key(*it.seq()[i].0) && m@[*it.seq()[i].0]
                    == *it.seq()[i].1,
            forall|k: u64| #[trigger] m@.contains_key(k) ==> it.seq().contains((&k, &m@[k])),
            vstd::std_specs::btree::increasing_seq(it.seq().map_values(|kv: (&u64, &u64)| *kv.0)),
            forall|i: int, j: int| 0 <= i < j < out@.len() ==> out@[i].price < out@[j].price,
    {
        proof {
            let keys = it.seq().map_values(|kv: (&u64, &u64)| *kv.0);
            let n = it.index();
            assert(keys[n] == *kv.0);
            assert forall|i: int| 0 <= i < n implies out@[i].price < *kv.0 by {
                assert(keys[i] == out@[i].price);
                assert(keys[i].cmp_spec(&keys[n]) is Less);
            }
        }
        out.push(PriceLevel { price: *kv.0, quantity: *kv.1 });
    }
    out
}

/// The levels of the map in descending order of price.
fn descending_levels(m: &BTreeMap<u64, u64>) -> (out: Vec<PriceLevel>)
    ensures
        is_ranking_of(Side::Bid, out@, m@),
{
    let up = ascending_levels(m);
    let mut out: Vec<PriceLevel> = Vec::new();
    let mut left: usize = up.len();
    while left > 0
        invariant
            left <= up.len(),
            out@.len() == up.len() - left,
            forall|i: int| 0 <= i < out@.len() ==> out@[i] == up@[up.len() - 1 - i],
        decreases left,
    {
        left -= 1;
        out.push(up[left]);
    }
    proof {
        let n = up@.len() as int;
        assert forall|k: u64| m@.contains_key(k) implies exists|i: int|
            0 <= i < out@.len() && #[trigger] out@[i].price == k by {
            let j = choose|j: int| 0 <= j < up@.len() && #[trigger] up@[j].price == k;
            assert(out@[n - 1 - j].price == k);
        }
        assert forall|i: int, j: int| 0 <= i < j < out@.len() implies outranks(
            Side::Bid,
            #[trigger] out@[i].price,
            #[trigger] out@[j].price,
        ) by {
            assert(outranks(Side::Ask, up@[n - 1 - j].price, up@[n - 1 - i].price));
        }
    }
    out
}

/// A book of bids and asks that keeps, on each side, no more than its depth
/// in levels: the highest bids and the lowest asks.
pub struct OrderBook {
    bids: BTreeMap<u64, u64>,
    asks: BTreeMap<u64, u64>,
    max_levels: usize,
}

impl Side {
    /// The other side.
    pub open spec fn opposite(self) -> Side {
        match self {
            Side::Bid => Side::Ask,
            Side::Ask => Side::Bid,
        }
    }
}

impl OrderBook {
    /// The bid side: quantity by price.
    pub closed spec fn bid_levels(&self) -> Map<u64, u64> {
        self.bids@
    }

    /// The ask side: quantity by price.
    pub closed spec fn ask_levels(&self) -> Map<u64, u64> {
        self.asks@
    }

    /// The greatest number of levels kept on each side.
    pub closed spec fn depth(&self) -> nat {
        self.max_levels as nat
    }

    /// One side of the book.
    pub open spec fn levels(&self, side: Side) -> Map<u64, u64> {
        match side {
            Side::Bid => self.bid_levels(),
            Side::Ask => self.ask_levels(),
        }
    }

    /// Neither side holds more levels than the depth, nor a level of
    /// quantity zero.
    pub open spec fn wf(&self) -> bool {
        &&& self.bid_levels().dom().finite()
        &&& self.ask_levels().dom().finite()
        &&& self.bid_levels().len() <= self.depth()
        &&& self.ask_levels().len() <= self.depth()
        &&& all_positive(self.bid_levels())
        &&& all_positive(self.ask_levels())
    }

    /// An empty book of depth [`DEFAULT_DEPTH`].
    pub fn new() -> (book: Self)
        ensures
            book.wf(),
            book.depth() == DEFAULT_DEPTH,
            book.bid_levels() == Map::<u64, u64>::empty(),
            book.ask_levels() == Map::<u64, u64>::empty(),
    {
        Self::with_depth(DEFAULT_DEPTH)
    }

    /// An empty book that keeps up to `max_levels` levels on each side.
    pub fn with_depth(max_levels: usize) -> (book: Self)
        ensures
            book.wf(),
            book.depth() == max_levels,
            book.bid_levels() == Map::<u64, u64>::empty(),
            book.ask_levels() == Map::<u64, u64>::empty(),
    {
        OrderBook { bids: BTreeMap::new(), asks: BTreeMap::new(), max_levels }
    }

    /// The greatest number of levels kept on each side.
    pub fn max_levels(&self) -> (n: usize)
        ensures
            n == self.depth(),
    {
        self.max_levels
    }

    /// Applies one batch of updates to one side: each update in turn, then
    /// the trim to the depth. The other side is left as it is.
    pub fn apply_deltas(&mut self, side: Side, deltas: &Vec<PriceLevel>)
        requires
            old(self).wf(),
        ensures
            final(self).wf(),
            final(self).depth() == old(self).depth(),
            final(self).levels(side) == apply_batch(
                side,
                old(self).levels(side),
                deltas@,
                old(self).depth(),
            ),
            final(self).levels(side.opposite()) == old(self).levels(side.opposite()),
            forall|k: u64, j: u64|
                final(self).levels(side).contains_key(k) && apply_deltas(
                    old(self).levels(side),
                    deltas@,
                ).contains_key(j) && !final(self).levels(side).contains_key(j) ==> outranks(
                    side,
                    k,
                    j,
                ),
    {
        proof {
            let full = apply_deltas(self.levels(side), deltas@);
            lemma_apply_deltas_preserves(self.levels(side), deltas@);
            lemma_best_levels_keeps_best(side, full, self.depth());
        }
        match side {
            Side::Bid => {
                apply_to(&mut self.bids, deltas);
                trim_side(&mut self.bids, Side::Bid, self.max_levels);
            },
            Side::Ask => {
                apply_to(&mut self.asks, deltas);
                trim_side(&mut self.asks, Side::Ask, self.max_levels);
            },
        }
    }

    /// Sets the quantity at a bid price, or removes the price where the
    /// quantity is zero, then trims the bids to the depth.
    pub fn update_bid(&mut self, price: u64, quantity: u64)
        requires
            old(self).wf(),
        ensures
            final(self).wf(),
            final(self).depth() == old(self).depth(),
            final(self).ask_levels() == old(self).ask_levels(),
            final(self).bid_levels() == best_levels(
                Side::Bid,
                apply_delta(old(self).bid_levels(), PriceLevel { price, quantity }),
                old(self).depth(),
            ),
            quantity == 0 ==> final(self).bid_levels() == old(self).bid_levels().remove(price),
    {
        self.update(Side::Bid, price, quantity);
    }

    /// Sets the quantity at an ask price, or removes the price where the
    /// quantity is zero, then trims the asks to the depth.
    pub fn update_ask(&mut self, price: u64, quantity: u64)
        requires
            old(self).wf(),
        ensures
            final(self).wf(),
            final(self).depth() == old(self).depth(),
            final(self).bid_levels() == old(self).bid_levels(),
            final(self).ask_levels() == best_levels(
                Side::Ask,
                apply_delta(old(self).ask_levels(), PriceLevel { price, quantity }),
                old(self).depth(),
            ),
            quantity == 0 ==> final(self).ask_levels() == old(self).ask_levels().remove(price),
    {
        self.update(Side::Ask, price, quantity);
    }

    /// One update on one side, then the trim of that side.
    fn update(&mut self, side: Side, price: u64, quantity: u64)
        requires
            old(self).wf(),
        ensures
            final(self).wf(),
            final(self).depth() == old(self).depth(),
            final(self).levels(side.opposite()) == old(self).levels(side.opposite()),
            final(self).levels(side) == best_levels(
                side,
                apply_delta(old(self).levels(side), PriceLevel { price, quantity }),
                old(self).depth(),
            ),
            quantity == 0 ==> final(self).levels(side) == old(self).levels(side).remove(price),
    {
        proof {
            let next = apply_delta(self.levels(side), PriceLevel { price, quantity });
            assert(all_positive(next));
            lemma_best_levels_keeps_best(side, next, self.depth());
            if quantity == 0 {
                assert(next.dom().subset_of(self.levels(side).dom()));
                vstd::set_lib::lemma_len_subset(next.dom(), self.levels(side).dom());
            }
        }
        match side {
            Side::Bid => {
                if quantity == 0 {
                    map_remove(&mut self.bids, price);
                } else {
                    map_insert(&mut self.bids, price, quantity);
                }
                self.trim_bids();
            },
            Side::Ask => {
                if quantity == 0 {
                    map_remove(&mut self.asks, price);
                } else {
                    map_insert(&mut self.asks, price, quantity);
                }
                self.trim_asks();
            },
        }
    }

    /// Drops the lowest bids until no more than the depth remain.
    fn trim_bids(&mut self)
        ensures
            final(self).depth() == old(self).depth(),
            final(self).ask_levels() == old(self).ask_levels(),
            final(self).bid_levels() == best_levels(
                Side::Bid,
                old(self).bid_levels(),
                old(self).depth(),
            ),
    {
        trim_side(&mut self.bids, Side::Bid, self.max_levels);
    }

    /// Drops the highest asks until no more than the depth remain.
    fn trim_asks(&mut self)
        ensures
            final(self).depth() == old(self).depth(),
            final(self).bid_levels() == old(self).bid_levels(),
            final(self).ask_levels() == best_levels(
                Side::Ask,
                old(self).ask_levels(),
                old(self).depth(),
            ),
    {
        trim_side(&mut self.asks, Side::Ask, self.max_levels);
    }

    /// Reads the rows as updates for one side and applies them as one
    /// batch. Where a row is no price level the book is left as it is.
    pub fn try_ingest(&mut self, side: Side, rows: &Vec<Vec<StringOrU64>>) -> (done: Result<
        (),
        DecodeError,
    >)
        requires
            old(self).wf(),
        ensures
            final(self).wf(),
            final(self).depth() == old(self).depth(),
            final(self).levels(side.opposite()) == old(self).levels(side.opposite()),
            match done {
                Ok(()) => rows_decodable(rows@) && final(self).levels(side) == apply_batch(
                    side,
                    old(self).levels(side),
                    rows_levels(rows@),
                    old(self).depth(),
                ),
                Err(e) => {
                    &&& e.side == side
                    &&& first_fault(rows@, e.row as int, e.fault)
                    &&& final(self).levels(side) == old(self).levels(side)
                },
            },
    {
        match decode_rows(side, rows) {
            Ok(levels) => {
                self.apply_deltas(side, &levels);
                Ok(())
            },
            Err(e) => Err(e),
        }
    }

    /// Applies the rows to the bids as one batch of updates.
    pub fn ingest_bids(&mut self, new_bids: Vec<Vec<StringOrU64>>)
        requires
            old(self).wf(),
            rows_decodable(new_bids@),
        ensures
            final(self).wf(),
            final(self).depth() == old(self).depth(),
            final(self).ask_levels() == old(self).ask_levels(),
            final(self).bid_levels() == apply_batch(
                Side::Bid,
                old(self).bid_levels(),
                rows_levels(new_bids@),
                old(self).depth(),
            ),
    {
        let _ = self.try_ingest(Side::Bid, &new_bids);
    }

    /// Applies the rows to the asks as one batch of updates.
    pub fn ingest_asks(&mut self, new_asks: Vec<Vec<StringOrU64>>)
        requires
            old(self).wf(),
            rows_decodable(new_asks@),
        ensures
            final(self).wf(),
            final(self).depth() == old(self).depth(),
            final(self).bid_levels() == old(self).bid_levels(),
            final(self).ask_levels() == apply_batch(
                Side::Ask,
                old(self).ask_levels(),
                rows_levels(new_asks@),
                old(self).depth(),
            ),
    {
        let _ = self.try_ingest(Side::Ask, &new_asks);
    }

    /// Applies a market message: its bids as one batch, then its asks as
    /// another. Where any row of either side is no price level, neither side
    /// changes; the error names the first such row, bids before asks.
    pub fn apply_market_data(&mut self, data: &MarketData) -> (done: Result<(), DecodeError>)
        requires
            old(self).wf(),
        ensures
            final(self).wf(),
            final(self).depth() == old(self).depth(),
            match done {
                Ok(()) => {
                    &&& market_decodable(*data)
                    &&& final(self).bid_levels() == apply_batch(
                        Side::Bid,
                        old(self).bid_levels(),
                        rows_levels(data.bids@),
                        old(self).depth(),
                    )
                    &&& final(self).ask_levels() == apply_batch(
                        Side::Ask,
                        old(self).ask_levels(),
                        rows_levels(data.asks@),
                        old(self).depth(),
                    )
                },
                Err(e) => {
                    &&& final(self).bid_levels() == old(self).bid_levels()
                    &&& final(self).ask_levels() == old(self).ask_levels()
                    &&& is_first_fault_of(*data, e)
                },
            },
    {
        let bids = match decode_rows(Side::Bid, &data.bids) {
            Ok(levels) => levels,
            Err(e) => {
                return Err(e);
            },
        };
        let asks = match decode_rows(Side::Ask, &data.asks) {
            Ok(levels) => levels,
            Err(e) => {
                return Err(e);
            },
        };
        self.apply_deltas(Side::Bid, &bids);
        self.apply_deltas(Side::Ask, &asks);
        Ok(())
    }

    /// A copy of both sides, each ordered best to worst: bids by falling
    /// price, asks by rising price.
    pub fn snapshot(&self) -> (snap: Snapshot)
        requires
            self.wf(),
        ensures
            is_snapshot_of(snap, *self),
            snap.bids@.len() <= self.depth(),
            snap.asks@.len() <= self.depth(),
    {
        Snapshot { bids: descending_levels(&self.bids), asks: ascending_levels(&self.asks) }
    }
}

} // verus!
