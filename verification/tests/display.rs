use gt_qd_orderbook::display::{format_row, COLUMN_WIDTH, RULE};
use gt_qd_orderbook::models::StringOrU64;
use gt_qd_orderbook::orderbook::OrderBook;

fn row(price: &str, quantity: u64) -> Vec<StringOrU64> {
    vec![StringOrU64::Str(price.to_string()), StringOrU64::U64(quantity)]
}

fn line(a: &str, b: &str, c: &str, d: &str) -> String {
    format!("{:<15} {:<15}   |   {:<15} {:<15}", a, b, c, d)
}

#[test]
fn rule_is_sixty_dashes() {
    assert_eq!(COLUMN_WIDTH, 15);
    assert_eq!(RULE, format!("{:-<60}", ""));
}

#[test]
fn row_pads_each_column() {
    assert_eq!(format_row("1", "2", "3", "4"), line("1", "2", "3", "4"));
    assert_eq!(format_row("", "", "", ""), line("", "", "", ""));
    assert_eq!(format_row("", "", "", "").chars().count(), 69);
    assert_eq!(
        format_row("exactly15chars!", "longer than fifteen", "é", ""),
        line("exactly15chars!", "longer than fifteen", "é", "")
    );
}

#[test]
fn empty_book_renders_heading_only() {
    let book = OrderBook::new();
    assert_eq!(
        book.display(),
        vec![
            String::new(),
            line("Bid Price", "Quantity", "Ask Price", "Quantity"),
            "-".repeat(60),
        ]
    );
}

#[test]
fn book_renders_side_by_side() {
    let mut book = OrderBook::new();
    book.ingest_bids(vec![row("3988.51", 56), row("3988.5", 12), row("3987", 1)]);
    book.ingest_asks(vec![row("3988.59", 3)]);
    assert_eq!(
        book.display(),
        vec![
            String::new(),
            line("Bid Price", "Quantity", "Ask Price", "Quantity"),
            "-".repeat(60),
            line("3988.51", "56", "3988.59", "3"),
            line("3988.5", "12", "", ""),
            line("3987", "1", "", ""),
        ]
    );
    let snap = book.snapshot();
    assert_eq!(snap.render(), book.display());
}

#[test]
fn asks_alone_fill_the_right_half() {
    let mut book = OrderBook::with_depth(2);
    book.ingest_asks(vec![row("2", 20), row("1", 10), row("3", 30)]);
    let lines = book.display();
    assert_eq!(lines.len(), 5);
    assert_eq!(lines[3], line("", "", "1", "10"));
    assert_eq!(lines[4], line("", "", "2", "20"));
}
