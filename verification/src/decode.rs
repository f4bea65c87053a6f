//! From rows of the feed to price levels.

use crate::levels::{PriceLevel, Side};
use crate::models::{MarketData, StringOrU64};
use vstd::prelude::*;

verus! {

/// What is wrong with a row.
#[derive(Clone, Copy, Debug, PartialEq, Eq, Structural)]
pub enum RowFault {
    /// The row has fewer than two entries.
    TooShort,
    /// The first entry is no price.
    InvalidPrice,
    /// The second entry is no quantity.
    InvalidQuantity,
}

/// The first row of a message that is no price level.
#[derive(Clone, Copy, Debug, PartialEq, Eq, Structural)]
pub struct DecodeError {
    pub side: Side,
    pub row: usize,
    pub fault: RowFault,
}

/// The level that a row stands for: its first entry as the price, its second
/// as the quantity. Further entries do not count.
pub open spec fn row_level(row: Seq<StringOrU64>) -> Result<PriceLevel, RowFault> {
    if row.len() < 2 {
        Err(RowFault::TooShort)
    } else {
        match row[0].price() {
            None => Err(RowFault::InvalidPrice),
            Some(price) => match row[1].quantity() {
                None => Err(RowFault::InvalidQuantity),
                Some(quantity) => Ok(PriceLevel { price, quantity }),
            },
        }
    }
}

/// Every row stands for a level.
pub open spec fn rows_decodable(rows: Seq<Vec<StringOrU64>>) -> bool {
    forall|i: int| 0 <= i < rows.len() ==> row_level(#[trigger] rows[i]@) is Ok
}

/// The levels that the rows stand for, in the order of the rows.
pub open spec fn rows_levels(rows: Seq<Vec<StringOrU64>>) -> Seq<PriceLevel> {
    Seq::new(rows.len(), |i: int| row_level(rows[i]@)->Ok_0)
}

/// Row `i` is the first that stands for no level, and `fault` is what is
/// wrong with it.
pub open spec fn first_fault(rows: Seq<Vec<StringOrU64>>, i: int, fault: RowFault) -> bool {
    &&& 0 <= i < rows.len()
    &&& row_level(rows[i]@) == Err::<PriceLevel, RowFault>(fault)
    &&& forall|j: int| 0 <= j < i ==> row_level(#[trigger] rows[j]@) is Ok
}

/// Every row of both sides stands for a level.
pub open spec fn market_decodable(data: MarketData) -> bool {
    rows_decodable(data.bids@) && rows_decodable(data.asks@)
}

/// `e` names the first row of the message that stands for no level, the
/// bids counted before the asks.
pub open spec fn is_first_fault_of(data: MarketData, e: DecodeError) -> bool {
    match e.side {
        Side::Bid => first_fault(data.bids@, e.row as int, e.fault),
        Side::Ask => rows_decodable(data.bids@) && first_fault(data.asks@, e.row as int, e.fault),
    }
}

/// Reads one row as a price level.
pub fn decode_row(row: &Vec<StringOrU64>) -> (level: Result<PriceLevel, RowFault>)
    ensures
        level == row_level(row@),
{
    if row.len() < 2 {
        return Err(RowFault::TooShort);
    }
    let price = match row[0].as_price() {
        Some(price) => price,
        None => {
            return Err(RowFault::InvalidPrice);
        },
    };
    match row[1].as_quantity() {
        Some(quantity) => Ok(PriceLevel { price, quantity }),
        None => Err(RowFault::InvalidQuantity),
    }
}

/// Reads the rows of one side as price levels: all of them, or the first
/// row that is none.
pub fn decode_rows(side: Side, rows: &Vec<Vec<StringOrU64>>) -> (levels: Result<
    Vec<PriceLevel>,
    DecodeError,
>)
    ensures
        match levels {
            Ok(levels) => rows_decodable(rows@) && levels@ == rows_levels(rows@),
            Err(e) => e.side == side && first_fault(rows@, e.row as int, e.fault),
        },
{
    let mut levels: Vec<PriceLevel> = Vec::new();
    let mut i: usize = 0;
    while i < rows.len()
        invariant
            i <= rows.len(),
            levels@.len() == i,
            forall|j: int| 0 <= j < i ==> row_level(#[trigger] rows@[j]@) == Ok::<
                PriceLevel,
                RowFault,
            >(levels@[j]),
        decreases rows.len() - i,
    {
        match decode_row(&rows[i]) {
            Ok(level) => {
                levels.push(level);
            },
            Err(fault) => {
                return Err(DecodeError { side, row: i, fault });
            },
        }
        i += 1;
    }
    proof {
        assert(levels@ =~= rows_levels(rows@));
    }
    Ok(levels)
}

} // verus!
