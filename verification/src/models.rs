//! The messages of the feed, as plain values.

use crate::decimal::{parse_price, parse_quantity, price_of, quantity_of, PRICE_SCALE};
use vstd::prelude::*;

verus! {

/// A market message: its kind, its topic and subject, and the levels that
/// changed.
#[derive(Default, Debug)]
pub struct MarketMsgRoot {
    pub type_field: String,
    pub topic: String,
    pub subject: String,
    pub data: MarketData,
}

/// A number that the feed writes either as text or as a number.
#[derive(Debug)]
pub enum StringOrU64 {
    Str(String),
    U64(u64),
}

/// The levels that changed on each side, each a row of price and quantity,
/// and the time of the change.
#[derive(Default, Debug)]
pub struct MarketData {
    pub asks: Vec<Vec<StringOrU64>>,
    pub bids: Vec<Vec<StringOrU64>>,
    pub ts: u64,
}

/// The first message of a connection, which carries the connection's id.
#[derive(Default, Debug, Clone, PartialEq)]
pub struct WelcomeMsg {
    pub id: String,
    pub type_field: String,
}

/// The answer to a request for a feed endpoint.
#[derive(Default, Debug, Clone, PartialEq)]
pub struct ServerRoot {
    pub code: String,
    pub data: KCServers,
}

/// A token and the servers that accept it.
#[derive(Default, Debug, Clone, PartialEq)]
pub struct KCServers {
    pub token: String,
    pub instance_servers: Vec<InstanceServer>,
}

/// One server of the feed. The intervals are in milliseconds.
#[derive(Default, Debug, Clone, PartialEq)]
pub struct InstanceServer {
    pub endpoint: String,
    pub encrypt: bool,
    pub protocol: String,
    pub ping_interval: u64,
    pub ping_timeout: u32,
}

impl StringOrU64 {
    /// The value as a price in ticks: text is read as a decimal number, a
    /// number counts whole units. `None` where the text is no price or the
    /// ticks do not fit in 64 bits.
    pub open spec fn price(self) -> Option<u64> {
        match self {
            StringOrU64::Str(s) => price_of(s@),
            StringOrU64::U64(n) => if n * PRICE_SCALE <= u64::MAX {
                Some((n * PRICE_SCALE) as u64)
            } else {
                None
            },
        }
    }

    /// The value as a quantity: text is read as a whole number, a number
    /// stands for itself. `None` where the text is no quantity.
    pub open spec fn quantity(self) -> Option<u64> {
        match self {
            StringOrU64::Str(s) => quantity_of(s@),
            StringOrU64::U64(n) => Some(n),
        }
    }

    /// The value as a price in ticks.
    pub fn as_price(&self) -> (ticks: Option<u64>)
        ensures
            ticks == self.price(),
    {
        match self {
            StringOrU64::Str(s) => parse_price(s.as_str()),
            StringOrU64::U64(n) => {
                if *n > u64::MAX / PRICE_SCALE {
                    None
                } else {
                    Some(*n * PRICE_SCALE)
                }
            },
        }
    }

    /// The value as a quantity.
    pub fn as_quantity(&self) -> (quantity: Option<u64>)
        ensures
            quantity == self.quantity(),
    {
        match self {
            StringOrU64::Str(s) => parse_quantity(s.as_str()),
            StringOrU64::U64(n) => Some(*n),
        }
    }
}

} // verus!
