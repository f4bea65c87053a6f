use gt_qd_orderbook::decimal::PRICE_SCALE;
use gt_qd_orderbook::decode::{decode_row, decode_rows, DecodeError, RowFault};
use gt_qd_orderbook::levels::{PriceLevel, Side};
use gt_qd_orderbook::models::StringOrU64;

fn s(text: &str) -> StringOrU64 {
    StringOrU64::Str(text.to_string())
}

#[test]
fn value_as_price() {
    assert_eq!(StringOrU64::U64(100).as_price(), Some(100 * PRICE_SCALE));
    assert_eq!(s("100").as_price(), Some(100 * PRICE_SCALE));
    assert_eq!(s("100.25").as_price(), Some(100 * PRICE_SCALE + 25_000_000));
    assert_eq!(StringOrU64::U64(184_467_440_737).as_price(), Some(184_467_440_737 * PRICE_SCALE));
    assert_eq!(StringOrU64::U64(184_467_440_738).as_price(), None);
    assert_eq!(StringOrU64::U64(u64::MAX).as_price(), None);
    assert_eq!(s("x").as_price(), None);
}

#[test]
fn value_as_quantity() {
    assert_eq!(StringOrU64::U64(7).as_quantity(), Some(7));
    assert_eq!(StringOrU64::U64(u64::MAX).as_quantity(), Some(u64::MAX));
    assert_eq!(s("7").as_quantity(), Some(7));
    assert_eq!(s("7.5").as_quantity(), None);
    assert_eq!(s("").as_quantity(), None);
}

#[test]
fn row_needs_price_and_quantity() {
    assert_eq!(
        decode_row(&vec![s("3988.59"), StringOrU64::U64(3)]),
        Ok(PriceLevel { price: 398_859_000_000, quantity: 3 })
    );
    assert_eq!(
        decode_row(&vec![StringOrU64::U64(5), s("0"), s("ignored")]),
        Ok(PriceLevel { price: 5 * PRICE_SCALE, quantity: 0 })
    );
    assert_eq!(decode_row(&vec![]), Err(RowFault::TooShort));
    assert_eq!(decode_row(&vec![s("1")]), Err(RowFault::TooShort));
    assert_eq!(decode_row(&vec![s("one"), s("1")]), Err(RowFault::InvalidPrice));
    assert_eq!(decode_row(&vec![s("1"), s("one")]), Err(RowFault::InvalidQuantity));
    assert_eq!(decode_row(&vec![s("one"), s("one")]), Err(RowFault::InvalidPrice));
}

#[test]
fn rows_decode_in_order_or_name_the_first_fault() {
    let rows = vec![
        vec![StringOrU64::U64(3), StringOrU64::U64(1)],
        vec![s("2.5"), s("4")],
    ];
    assert_eq!(
        decode_rows(Side::Ask, &rows),
        Ok(vec![
            PriceLevel { price: 3 * PRICE_SCALE, quantity: 1 },
            PriceLevel { price: 250_000_000, quantity: 4 }
        ])
    );
    assert_eq!(decode_rows(Side::Bid, &vec![]), Ok(vec![]));
    let rows = vec![
        vec![StringOrU64::U64(3), StringOrU64::U64(1)],
        vec![s("2.5"), s("-4")],
        vec![s("bad"), s("4")],
    ];
    assert_eq!(
        decode_rows(Side::Bid, &rows),
        Err(DecodeError { side: Side::Bid, row: 1, fault: RowFault::InvalidQuantity })
    );
}
