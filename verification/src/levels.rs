//! The mathematical model of one side of the book: a finite map from price
//! to quantity, the effect of updates on it, and what it means to keep only
//! the best levels.

use vstd::prelude::*;

verus! {

/// The two sides of a market.
#[derive(Clone, Copy, Debug, PartialEq, Eq, Structural)]
pub enum Side {
    Bid,
    Ask,
}

/// A price, counted in ticks, and the quantity resting at it.
///
/// As an update, a quantity of zero asks for the level to be removed; a book
/// never holds a level with quantity zero.
#[derive(Clone, Copy, Debug, PartialEq, Eq, Structural)]
pub struct PriceLevel {
    pub price: u64,
    pub quantity: u64,
}

/// Whether price `a` is strictly better than price `b` on `side`: higher for
/// bids, lower for asks.
pub open spec fn outranks(side: Side, a: u64, b: u64) -> bool {
    match side {
        Side::Bid => a > b,
        Side::Ask => a < b,
    }
}

/// The effect of one update: quantity zero removes the price, any other
/// quantity replaces whatever stood at the price.
pub open spec fn apply_delta(m: Map<u64, u64>, d: PriceLevel) -> Map<u64, u64> {
    if d.quantity == 0 {
        m.remove(d.price)
    } else {
        m.insert(d.price, d.quantity)
    }
}

/// The effect of a batch of updates, applied first to last.
pub open spec fn apply_deltas(m: Map<u64, u64>, ds: Seq<PriceLevel>) -> Map<u64, u64>
    decreases ds.len(),
{
    if ds.len() == 0 {
        m
    } else {
        apply_delta(apply_deltas(m, ds.drop_last()), ds.last())
    }
}

/// The quantity that the last update for `price` in `ds` carries, if `ds`
/// holds an update for that price at all.
pub open spec fn last_quantity(ds: Seq<PriceLevel>, price: u64) -> Option<u64>
    decreases ds.len(),
{
    if ds.len() == 0 {
        None
    } else if ds.last().price == price {
        Some(ds.last().quantity)
    } else {
        last_quantity(ds.drop_last(), price)
    }
}

/// `k` is a price of `m` that every other price of `m` outranks.
pub open spec fn is_worst(side: Side, m: Map<u64, u64>, k: u64) -> bool {
    m.contains_key(k) && forall|j: u64| m.contains_key(j) && j != k ==> outranks(side, j, k)
}

/// The worst price of a non-empty finite map: the lowest bid, the highest ask.
pub open spec fn worst_price(side: Side, m: Map<u64, u64>) -> u64 {
    choose|k: u64| is_worst(side, m, k)
}

/// What is left of `m` once the worst price has been removed, one at a time,
/// for as long as more than `n` levels remain.
pub open spec fn best_levels(side: Side, m: Map<u64, u64>, n: nat) -> Map<u64, u64>
    decreases m.len(),
{
    let w = worst_price(side, m);
    if m.dom().finite() && m.len() > n && m.contains_key(w) {
        best_levels(side, m.remove(w), n)
    } else {
        m
    }
}

/// Every quantity in `m` is positive.
pub open spec fn all_positive(m: Map<u64, u64>) -> bool {
    forall|k: u64| m.contains_key(k) ==> #[trigger] m[k] > 0
}

/// A non-empty finite map has a worst price.
pub proof fn lemma_worst_exists(side: Side, m: Map<u64, u64>)
    requires
        m.dom().finite(),
        m.len() > 0,
    ensures
        is_worst(side, m, worst_price(side, m)),
    decreases m.len(),
{
    let k = m.dom().choose();
    let rest = m.remove(k);
    if rest.len() == 0 {
        assert forall|j: u64| m.contains_key(j) && j != k implies outranks(side, j, k) by {
            assert(rest.dom().contains(j));
        }
        assert(is_worst(side, m, k));
    } else {
        lemma_worst_exists(side, rest);
        let w = worst_price(side, rest);
        if outranks(side, k, w) {
            assert(is_worst(side, m, w));
        } else {
            assert forall|j: u64| m.contains_key(j) && j != k implies outranks(side, j, k) by {
                assert(rest.contains_key(j));
            }
            assert(is_worst(side, m, k));
        }
    }
}

/// A map has at most one worst price.
pub proof fn lemma_worst_unique(side: Side, m: Map<u64, u64>, a: u64, b: u64)
    requires
        is_worst(side, m, a),
        is_worst(side, m, b),
    ensures
        a == b,
{
}

/// Keeping the best `n` levels keeps levels of `m` unchanged, keeps `n` of
/// them or all where there are fewer, and keeps no price that a dropped
/// price outranks. Positive quantities stay positive.
pub proof fn lemma_best_levels_keeps_best(side: Side, m: Map<u64, u64>, n: nat)
    requires
        m.dom().finite(),
    ensures
        best_levels(side, m, n).submap_of(m),
        best_levels(side, m, n).dom().finite(),
        best_levels(side, m, n).len() == if m.len() <= n { m.len() } else { n },
        all_positive(m) ==> all_positive(best_levels(side, m, n)),
        forall|k: u64, j: u64|
            best_levels(side, m, n).contains_key(k) && m.contains_key(j) && !best_levels(
                side,
                m,
                n,
            ).contains_key(j) ==> outranks(side, k, j),
    decreases m.len(),
{
    if m.len() > n {
        lemma_worst_exists(side, m);
        let w = worst_price(side, m);
        let rest = m.remove(w);
        lemma_best_levels_keeps_best(side, rest, n);
        let kept = best_levels(side, rest, n);
        assert(kept == best_levels(side, m, n));
        assert forall|k: u64| #[trigger] kept.dom().contains(k) implies m.dom().contains(k)
            && kept[k] == m[k] by {
            assert(rest.dom().contains(k));
        }
        assert forall|k: u64, j: u64|
            kept.contains_key(k) && m.contains_key(j) && !kept.contains_key(j) implies outranks(
            side,
            k,
            j,
        ) by {
            assert(rest.contains_key(k));
            if j != w {
                assert(rest.contains_key(j));
            }
        }
    } else {
        assert(best_levels(side, m, n) == m);
        assert(m.submap_of(m));
    }
    if all_positive(m) {
        let kept = best_levels(side, m, n);
        assert forall|k: u64| kept.contains_key(k) implies #[trigger] kept[k] > 0 by {
            assert(kept.dom().contains(k));
            assert(m[k] > 0);
        }
    }
}

/// The best `n` levels are the only choice of levels of `m` that takes `n`
/// of them, or all where there are fewer, and takes no price that a price
/// left out outranks.
pub proof fn lemma_best_levels_unique(side: Side, m: Map<u64, u64>, kept: Map<u64, u64>, n: nat)
    requires
        m.dom().finite(),
        kept.submap_of(m),
        kept.len() == if m.len() <= n { m.len() } else { n },
        forall|k: u64, j: u64|
            kept.contains_key(k) && m.contains_key(j) && !kept.contains_key(j) ==> outranks(
                side,
                k,
                j,
            ),
    ensures
        kept == best_levels(side, m, n),
    decreases m.len(),
{
    assert(kept.dom().subset_of(m.dom()));
    vstd::set_lib::lemma_len_subset(kept.dom(), m.dom());
    if m.len() > n {
        lemma_worst_exists(side, m);
        let w = worst_price(side, m);
        let rest = m.remove(w);
        if kept.contains_key(w) {
            assert(exists|j: u64| m.contains_key(j) && !kept.contains_key(j)) by {
                if forall|j: u64| m.contains_key(j) ==> kept.contains_key(j) {
                    assert(m.dom().subset_of(kept.dom()));
                    vstd::set_lib::lemma_len_subset(m.dom(), kept.dom());
                }
            }
            let j = choose|j: u64| m.contains_key(j) && !kept.contains_key(j);
            assert(outranks(side, w, j));
            assert(outranks(side, j, w));
        }
        assert(kept.submap_of(rest)) by {
            assert forall|k: u64| #[trigger] kept.dom().contains(k) implies rest.dom().contains(k)
                && kept[k] == rest[k] by {
                assert(m.dom().contains(k));
            }
        }
        lemma_best_levels_unique(side, rest, kept, n);
    } else {
        vstd::set_lib::lemma_subset_equality(kept.dom(), m.dom());
        assert(kept =~= m) by {
            assert forall|k: u64| #[trigger] kept.dom().contains(k) implies kept[k] == m[k] by {}
        }
    }
}

/// One batch on one side: the updates first to last, then the trim to the
/// best `n` levels.
pub open spec fn apply_batch(side: Side, m: Map<u64, u64>, ds: Seq<PriceLevel>, n: nat) -> Map<
    u64,
    u64,
> {
    best_levels(side, apply_deltas(m, ds), n)
}

/// Updates keep a finite map finite and positive quantities positive.
pub proof fn lemma_apply_deltas_preserves(m: Map<u64, u64>, ds: Seq<PriceLevel>)
    requires
        m.dom().finite(),
        all_positive(m),
    ensures
        apply_deltas(m, ds).dom().finite(),
        all_positive(apply_deltas(m, ds)),
    decreases ds.len(),
{
    if ds.len() > 0 {
        lemma_apply_deltas_preserves(m, ds.drop_last());
    }
}

/// After a batch of updates each price stands as the last update for it in
/// the batch left it: absent if that update carried quantity zero, present
/// with its quantity otherwise. A price that the batch does not mention
/// stands as it stood before.
pub proof fn lemma_last_update_wins(m: Map<u64, u64>, ds: Seq<PriceLevel>, price: u64)
    ensures
        match last_quantity(ds, price) {
            Some(q) => if q == 0 {
                !apply_deltas(m, ds).contains_key(price)
            } else {
                apply_deltas(m, ds).contains_key(price) && apply_deltas(m, ds)[price] == q
            },
            None => apply_deltas(m, ds).contains_key(price) == m.contains_key(price) && (
            m.contains_key(price) ==> apply_deltas(m, ds)[price] == m[price]),
        },
    decreases ds.len(),
{
    if ds.len() > 0 {
        lemma_last_update_wins(m, ds.drop_last(), price);
    }
}

/// The last update for a price is the one at the greatest index that names
/// the price.
pub proof fn lemma_last_quantity_at(ds: Seq<PriceLevel>, i: int)
    requires
        0 <= i < ds.len(),
        forall|j: int| i < j < ds.len() ==> ds[j].price != ds[i].price,
    ensures
        last_quantity(ds, ds[i].price) == Some(ds[i].quantity),
    decreases ds.len(),
{
    if i < ds.len() - 1 {
        let front = ds.drop_last();
        assert(front[i] == ds[i]);
        assert forall|j: int| i < j < front.len() implies front[j].price != front[i].price by {
            assert(front[j] == ds[j]);
        }
        lemma_last_quantity_at(front, i);
    }
}

/// Of two updates for one price in a batch the later one decides: where no
/// update for that price follows it, the price ends absent if it carried
/// quantity zero and present with its quantity otherwise, whatever the
/// earlier update said and whatever stood in the map.
pub proof fn lemma_later_update_wins(m: Map<u64, u64>, ds: Seq<PriceLevel>, i: int, j: int)
    requires
        0 <= i < j < ds.len(),
        ds[i].price == ds[j].price,
        forall|k: int| j < k < ds.len() ==> ds[k].price != ds[j].price,
    ensures
        ds[j].quantity == 0 ==> !apply_deltas(m, ds).contains_key(ds[j].price),
        ds[j].quantity != 0 ==> apply_deltas(m, ds).contains_key(ds[j].price) && apply_deltas(
            m,
            ds,
        )[ds[j].price] == ds[j].quantity,
{
    lemma_last_quantity_at(ds, j);
    lemma_last_update_wins(m, ds, ds[j].price);
}

/// A map that lies between the best levels of `x` and `x` itself has the
/// same best levels as `x`.
pub proof fn lemma_best_levels_between(side: Side, x: Map<u64, u64>, y: Map<u64, u64>, n: nat)
    requires
        x.dom().finite(),
        y.submap_of(x),
        best_levels(side, x, n).submap_of(y),
    ensures
        best_levels(side, y, n) == best_levels(side, x, n),
    decreases x.len(),
{
    assert(y.dom().finite()) by {
        assert(y.dom().subset_of(x.dom()));
        vstd::set_lib::lemma_len_subset(y.dom(), x.dom());
    }
    if x.len() > n {
        lemma_worst_exists(side, x);
        let w = worst_price(side, x);
        let x1 = x.remove(w);
        let kept = best_levels(side, x1, n);
        lemma_best_levels_keeps_best(side, x1, n);
        assert(kept == best_levels(side, x, n));
        if y.contains_key(w) {
            let y1 = y.remove(w);
            assert(kept.submap_of(y1)) by {
                assert forall|k: u64| #[trigger] kept.dom().contains(k) implies y1.dom().contains(k)
                    && kept[k] == y1[k] by {
                    assert(x1.dom().contains(k));
                    assert(y.dom().contains(k));
                }
            }
            assert(y1.submap_of(x1)) by {
                assert forall|k: u64| #[trigger] y1.dom().contains(k) implies x1.dom().contains(k)
                    && y1[k] == x1[k] by {
                    assert(y.dom().contains(k));
                }
            }
            assert(y.len() > n) by {
                assert(kept.dom().subset_of(y1.dom()));
                vstd::set_lib::lemma_len_subset(kept.dom(), y1.dom());
            }
            assert(is_worst(side, y, w)) by {
                assert forall|j: u64| y.contains_key(j) && j != w implies outranks(side, j, w) by {
                    assert(y.dom().contains(j));
                    assert(x.contains_key(j));
                }
            }
            lemma_worst_exists(side, y);
            lemma_worst_unique(side, y, w, worst_price(side, y));
            lemma_best_levels_between(side, x1, y1, n);
        } else {
            assert(y.submap_of(x1)) by {
                assert forall|k: u64| #[trigger] y.dom().contains(k) implies x1.dom().contains(k)
                    && y[k] == x1[k] by {
                    assert(x.dom().contains(k));
                }
            }
            lemma_best_levels_between(side, x1, y, n);
        }
    } else {
        assert(best_levels(side, x, n) == x);
        assert(x.submap_of(y));
        assert(y.dom() =~= x.dom());
        assert forall|k: u64| #[trigger] y.dom().contains(k) implies y[k] == x[k] by {}
        assert(y =~= x);
    }
}

/// A batch applied a second time changes nothing: the side then stands as
/// the first application left it.
pub proof fn lemma_apply_batch_idempotent(side: Side, m: Map<u64, u64>, ds: Seq<PriceLevel>, n: nat)
    requires
        m.dom().finite(),
    ensures
        apply_batch(side, apply_batch(side, m, ds, n), ds, n) == apply_batch(side, m, ds, n),
{
    let x = apply_deltas(m, ds);
    let once = best_levels(side, x, n);
    let y = apply_deltas(once, ds);
    lemma_apply_deltas_finite(m, ds);
    lemma_best_levels_keeps_best(side, x, n);
    assert(y.submap_of(x)) by {
        assert forall|k: u64| #[trigger] y.dom().contains(k) implies x.dom().contains(k) && y[k]
            == x[k] by {
            lemma_last_update_wins(m, ds, k);
            lemma_last_update_wins(once, ds, k);
            if last_quantity(ds, k) is None {
                assert(once.dom().contains(k));
            }
        }
    }
    assert(once.submap_of(y)) by {
        assert forall|k: u64| #[trigger] once.dom().contains(k) implies y.dom().contains(k)
            && once[k] == y[k] by {
            lemma_last_update_wins(m, ds, k);
            lemma_last_update_wins(once, ds, k);
            assert(x.dom().contains(k));
        }
    }
    lemma_best_levels_between(side, x, y, n);
}

/// Updates keep a finite map finite.
pub proof fn lemma_apply_deltas_finite(m: Map<u64, u64>, ds: Seq<PriceLevel>)
    requires
        m.dom().finite(),
    ensures
        apply_deltas(m, ds).dom().finite(),
    decreases ds.len(),
{
    if ds.len() > 0 {
        lemma_apply_deltas_finite(m, ds.drop_last());
    }
}

/// After a batch a side holds no more than `n` levels, all of them levels
/// that the updates left, and none that a dropped price outranks: every
/// bid kept is higher than every bid dropped, every ask kept lower than
/// every ask dropped.
pub proof fn lemma_batch_keeps_best(side: Side, m: Map<u64, u64>, ds: Seq<PriceLevel>, n: nat)
    requires
        m.dom().finite(),
    ensures
        apply_batch(side, m, ds, n).dom().finite(),
        apply_batch(side, m, ds, n).len() <= n,
        apply_batch(side, m, ds, n).submap_of(apply_deltas(m, ds)),
        forall|k: u64, j: u64|
            apply_batch(side, m, ds, n).contains_key(k) && apply_deltas(m, ds).contains_key(j)
                && !apply_batch(side, m, ds, n).contains_key(j) ==> outranks(side, k, j),
{
    lemma_apply_deltas_finite(m, ds);
    lemma_best_levels_keeps_best(side, apply_deltas(m, ds), n);
}

/// On a side within its depth, an update with quantity zero removes the
/// level at its price and no other; where the price is absent, nothing
/// changes.
pub proof fn lemma_zero_quantity_removes(side: Side, m: Map<u64, u64>, price: u64, n: nat)
    requires
        m.dom().finite(),
        m.len() <= n,
    ensures
        apply_batch(side, m, seq![PriceLevel { price, quantity: 0 }], n) == m.remove(price),
        !m.contains_key(price) ==> apply_batch(side, m, seq![PriceLevel { price, quantity: 0 }], n)
            == m,
{
    let ds = seq![PriceLevel { price, quantity: 0 }];
    assert(ds.drop_last() =~= Seq::<PriceLevel>::empty());
    assert(apply_deltas(m, ds.drop_last()) == m);
    assert(apply_deltas(m, ds) == m.remove(price));
    assert(m.remove(price).dom().subset_of(m.dom()));
    vstd::set_lib::lemma_len_subset(m.remove(price).dom(), m.dom());
    if !m.contains_key(price) {
        assert(m.remove(price) =~= m);
    }
}

/// Of two updates for one price in a batch the later one decides also
/// after the trim: the price is gone if the later update carried quantity
/// zero, and where the price is kept it is kept once, with the later
/// update's quantity.
pub proof fn lemma_later_update_wins_in_batch(
    side: Side,
    m: Map<u64, u64>,
    ds: Seq<PriceLevel>,
    n: nat,
    i: int,
    j: int,
)
    requires
        m.dom().finite(),
        0 <= i < j < ds.len(),
        ds[i].price == ds[j].price,
        forall|k: int| j < k < ds.len() ==> ds[k].price != ds[j].price,
    ensures
        ds[j].quantity == 0 ==> !apply_batch(side, m, ds, n).contains_key(ds[j].price),
        apply_batch(side, m, ds, n).contains_key(ds[j].price) ==> apply_batch(
            side,
            m,
            ds,
            n,
        )[ds[j].price] == ds[j].quantity,
{
    lemma_later_update_wins(m, ds, i, j);
    lemma_batch_keeps_best(side, m, ds, n);
    let kept = apply_batch(side, m, ds, n);
    if kept.contains_key(ds[j].price) {
        assert(kept.dom().contains(ds[j].price));
    }
}

} // verus!
