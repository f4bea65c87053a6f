use gt_qd_orderbook::decimal::PRICE_SCALE;
use gt_qd_orderbook::decode::{DecodeError, RowFault};
use gt_qd_orderbook::levels::{PriceLevel, Side};
use gt_qd_orderbook::models::{MarketData, StringOrU64};
use gt_qd_orderbook::orderbook::{OrderBook, DEFAULT_DEPTH};

fn num(price: u64, quantity: u64) -> Vec<StringOrU64> {
    vec![StringOrU64::U64(price), StringOrU64::U64(quantity)]
}

fn text(price: &str, quantity: &str) -> Vec<StringOrU64> {
    vec![StringOrU64::Str(price.to_string()), StringOrU64::Str(quantity.to_string())]
}

fn level(units: u64, quantity: u64) -> PriceLevel {
    PriceLevel { price: units * PRICE_SCALE, quantity }
}

#[test]
fn new_book_is_empty_with_default_depth() {
    let book = OrderBook::new();
    assert_eq!(DEFAULT_DEPTH, 5);
    assert_eq!(book.max_levels(), 5);
    let snap = book.snapshot();
    assert!(snap.bids.is_empty());
    assert!(snap.asks.is_empty());
}

#[test]
fn six_bids_in_one_batch_keep_the_five_highest() {
    let mut book = OrderBook::new();
    book.ingest_bids(vec![
        num(100, 10),
        num(99, 5),
        num(98, 7),
        num(97, 3),
        num(96, 1),
        num(95, 2),
    ]);
    let snap = book.snapshot();
    assert_eq!(
        snap.bids,
        vec![level(100, 10), level(99, 5), level(98, 7), level(97, 3), level(96, 1)]
    );
    assert!(snap.asks.is_empty());
}

#[test]
fn six_asks_in_one_batch_keep_the_five_lowest() {
    let mut book = OrderBook::new();
    book.ingest_asks(vec![
        num(106, 2),
        num(101, 10),
        num(102, 5),
        num(103, 7),
        num(104, 3),
        num(105, 1),
    ]);
    let snap = book.snapshot();
    assert_eq!(
        snap.asks,
        vec![level(101, 10), level(102, 5), level(103, 7), level(104, 3), level(105, 1)]
    );
    assert!(snap.bids.is_empty());
}

#[test]
fn zero_quantity_removes_the_only_bid() {
    let mut book = OrderBook::new();
    book.ingest_bids(vec![num(100, 10)]);
    assert_eq!(book.snapshot().bids, vec![level(100, 10)]);
    book.ingest_bids(vec![num(100, 0)]);
    assert!(book.snapshot().bids.is_empty());
}

#[test]
fn zero_quantity_for_absent_price_changes_nothing() {
    let mut book = OrderBook::new();
    book.ingest_bids(vec![num(100, 10), num(99, 4)]);
    let before = book.snapshot();
    book.update_bid(98 * PRICE_SCALE, 0);
    let after = book.snapshot();
    assert_eq!(before.bids, after.bids);
    assert_eq!(before.asks, after.asks);
}

#[test]
fn zero_quantity_removes_exactly_that_price() {
    let mut book = OrderBook::new();
    book.ingest_asks(vec![num(101, 1), num(102, 2), num(103, 3)]);
    book.update_ask(102 * PRICE_SCALE, 0);
    assert_eq!(book.snapshot().asks, vec![level(101, 1), level(103, 3)]);
}

#[test]
fn later_update_for_a_price_wins_within_a_batch() {
    let mut book = OrderBook::new();
    book.ingest_bids(vec![num(100, 10), num(99, 1), num(100, 25)]);
    assert_eq!(book.snapshot().bids, vec![level(100, 25), level(99, 1)]);
    book.ingest_bids(vec![num(99, 7), num(99, 0)]);
    assert_eq!(book.snapshot().bids, vec![level(100, 25)]);
    book.ingest_bids(vec![num(98, 0), num(98, 3)]);
    assert_eq!(book.snapshot().bids, vec![level(100, 25), level(98, 3)]);
}

#[test]
fn snapshot_orders_bids_down_and_asks_up() {
    let mut book = OrderBook::new();
    book.ingest_bids(vec![num(3, 1), num(9, 1), num(1, 1), num(7, 1), num(5, 1), num(8, 1), num(2, 1)]);
    book.ingest_asks(vec![num(13, 1), num(19, 1), num(11, 1), num(17, 1), num(15, 1), num(18, 1), num(12, 1)]);
    let snap = book.snapshot();
    assert_eq!(snap.bids.len(), 5);
    assert_eq!(snap.asks.len(), 5);
    for pair in snap.bids.windows(2) {
        assert!(pair[0].price > pair[1].price);
    }
    for pair in snap.asks.windows(2) {
        assert!(pair[0].price < pair[1].price);
    }
    assert_eq!(snap.bids[0], level(9, 1));
    assert_eq!(snap.bids[4], level(3, 1));
    assert_eq!(snap.asks[0], level(11, 1));
    assert_eq!(snap.asks[4], level(17, 1));
}

#[test]
fn applying_a_batch_twice_is_applying_it_once() {
    let batch = || vec![num(100, 10), num(95, 2), num(99, 0), num(101, 4), num(95, 6)];
    let mut once = OrderBook::with_depth(3);
    once.ingest_bids(vec![num(99, 5), num(98, 7), num(97, 3)]);
    let mut twice = OrderBook::with_depth(3);
    twice.ingest_bids(vec![num(99, 5), num(98, 7), num(97, 3)]);
    once.ingest_bids(batch());
    twice.ingest_bids(batch());
    twice.ingest_bids(batch());
    assert_eq!(once.snapshot().bids, twice.snapshot().bids);
    assert_eq!(once.snapshot().bids, vec![level(101, 4), level(100, 10), level(98, 7)]);
}

#[test]
fn trim_comes_after_the_whole_batch() {
    let mut book = OrderBook::with_depth(2);
    book.ingest_bids(vec![num(100, 1), num(99, 1)]);
    // The batch adds a price below the kept ones and removes the best one:
    // the new price survives because the trim looks at the batch as a whole.
    book.ingest_bids(vec![num(98, 4), num(100, 0)]);
    assert_eq!(book.snapshot().bids, vec![level(99, 1), level(98, 4)]);
}

#[test]
fn update_trims_after_the_single_change() {
    let mut book = OrderBook::with_depth(2);
    book.update_ask(5 * PRICE_SCALE, 1);
    book.update_ask(6 * PRICE_SCALE, 2);
    book.update_ask(7 * PRICE_SCALE, 3);
    assert_eq!(book.snapshot().asks, vec![level(5, 1), level(6, 2)]);
    book.update_ask(4 * PRICE_SCALE, 9);
    assert_eq!(book.snapshot().asks, vec![level(4, 9), level(5, 1)]);
}

#[test]
fn depth_zero_keeps_nothing() {
    let mut book = OrderBook::with_depth(0);
    book.ingest_bids(vec![num(1, 1), num(2, 2)]);
    book.ingest_asks(vec![num(3, 3)]);
    let snap = book.snapshot();
    assert!(snap.bids.is_empty());
    assert!(snap.asks.is_empty());
}

#[test]
fn text_and_number_reach_the_same_level() {
    let mut book = OrderBook::new();
    book.ingest_bids(vec![text("100", "10")]);
    book.ingest_bids(vec![num(100, 12)]);
    assert_eq!(book.snapshot().bids, vec![level(100, 12)]);
    book.ingest_bids(vec![text("100.0", "0")]);
    assert!(book.snapshot().bids.is_empty());
}

#[test]
fn prices_order_by_value_not_by_text() {
    let mut book = OrderBook::with_depth(2);
    book.ingest_bids(vec![text("9", "1"), text("10", "1"), text("100", "1")]);
    assert_eq!(book.snapshot().bids, vec![level(100, 1), level(10, 1)]);
    let mut book = OrderBook::with_depth(2);
    book.ingest_asks(vec![text("9.5", "1"), text("10.25", "2"), text("100", "3")]);
    assert_eq!(
        book.snapshot().asks,
        vec![
            PriceLevel { price: 950_000_000, quantity: 1 },
            PriceLevel { price: 1_025_000_000, quantity: 2 }
        ]
    );
}

#[test]
fn apply_deltas_leaves_the_other_side_alone() {
    let mut book = OrderBook::new();
    book.apply_deltas(Side::Ask, &vec![level(10, 1)]);
    book.apply_deltas(Side::Bid, &vec![level(9, 2), level(8, 3)]);
    let snap = book.snapshot();
    assert_eq!(snap.asks, vec![level(10, 1)]);
    assert_eq!(snap.bids, vec![level(9, 2), level(8, 3)]);
}

#[test]
fn malformed_row_leaves_the_book_unchanged() {
    let mut book = OrderBook::new();
    book.ingest_bids(vec![num(100, 10)]);
    book.ingest_asks(vec![num(101, 3)]);
    let before = book.snapshot();

    let data = MarketData {
        bids: vec![num(99, 1), text("abc", "5")],
        asks: vec![num(102, 1)],
        ts: 1,
    };
    assert_eq!(
        book.apply_market_data(&data),
        Err(DecodeError { side: Side::Bid, row: 1, fault: RowFault::InvalidPrice })
    );
    let data = MarketData {
        bids: vec![num(99, 1)],
        asks: vec![num(102, 1), text("103", "-4")],
        ts: 2,
    };
    assert_eq!(
        book.apply_market_data(&data),
        Err(DecodeError { side: Side::Ask, row: 1, fault: RowFault::InvalidQuantity })
    );
    let data = MarketData { bids: vec![vec![StringOrU64::U64(5)]], asks: vec![], ts: 3 };
    assert_eq!(
        book.apply_market_data(&data),
        Err(DecodeError { side: Side::Bid, row: 0, fault: RowFault::TooShort })
    );
    assert_eq!(
        book.try_ingest(Side::Ask, &vec![vec![]]),
        Err(DecodeError { side: Side::Ask, row: 0, fault: RowFault::TooShort })
    );

    let after = book.snapshot();
    assert_eq!(before.bids, after.bids);
    assert_eq!(before.asks, after.asks);
}

#[test]
fn market_data_applies_both_sides() {
    let mut book = OrderBook::new();
    let data = MarketData {
        bids: vec![text("3988.51", "56"), text("3988.5", "12")],
        asks: vec![text("3988.59", "3"), num(3990, 8)],
        ts: 1_700_000_000_000,
    };
    assert_eq!(book.apply_market_data(&data), Ok(()));
    let snap = book.snapshot();
    assert_eq!(
        snap.bids,
        vec![
            PriceLevel { price: 398_851_000_000, quantity: 56 },
            PriceLevel { price: 398_850_000_000, quantity: 12 }
        ]
    );
    assert_eq!(
        snap.asks,
        vec![
            PriceLevel { price: 398_859_000_000, quantity: 3 },
            PriceLevel { price: 399_000_000_000, quantity: 8 }
        ]
    );
}
