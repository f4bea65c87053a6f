//! The book as a table of text: bids on the left, asks on the right, best
//! levels first.

use crate::decimal::{decimal_text, format_price, format_u64, price_text};
use crate::levels::PriceLevel;
use crate::orderbook::{OrderBook, Snapshot};
use vstd::prelude::*;
use vstd::string::StrSliceExecFns;
use vstd::string::StringExecFns;

verus! {

/// Width of a column of the table, in characters.
pub const COLUMN_WIDTH: usize = 15;

/// The line under the heading of the table.
pub const RULE: &'static str = "------------------------------------------------------------";

/// `width` spaces.
pub open spec fn spaces(width: nat) -> Seq<char> {
    Seq::new(width, |i: int| ' ')
}

/// `s`, followed by spaces up to `width` characters where it is shorter.
pub open spec fn pad_right(s: Seq<char>, width: nat) -> Seq<char> {
    if s.len() >= width {
        s
    } else {
        s + spaces((width - s.len()) as nat)
    }
}

/// One line of the table: two columns for the bid, a bar, two columns for
/// the ask.
pub open spec fn row_text(
    bid_price: Seq<char>,
    bid_quantity: Seq<char>,
    ask_price: Seq<char>,
    ask_quantity: Seq<char>,
) -> Seq<char> {
    pad_right(bid_price, COLUMN_WIDTH as nat) + seq![' '] + pad_right(
        bid_quantity,
        COLUMN_WIDTH as nat,
    ) + seq![' ', ' ', ' ', '|', ' ', ' ', ' '] + pad_right(ask_price, COLUMN_WIDTH as nat)
        + seq![' '] + pad_right(ask_quantity, COLUMN_WIDTH as nat)
}

/// The heading of the table.
pub open spec fn header_text() -> Seq<char> {
    row_text("Bid Price"@, "Quantity"@, "Ask Price"@, "Quantity"@)
}

/// The price of level `i`, as text; empty where there is no such level.
pub open spec fn price_cell(levels: Seq<PriceLevel>, i: int) -> Seq<char> {
    if 0 <= i < levels.len() {
        price_text(levels[i].price)
    } else {
        Seq::<char>::empty()
    }
}

/// The quantity of level `i`, as text; empty where there is no such level.
pub open spec fn quantity_cell(levels: Seq<PriceLevel>, i: int) -> Seq<char> {
    if 0 <= i < levels.len() {
        decimal_text(levels[i].quantity as nat)
    } else {
        Seq::<char>::empty()
    }
}

/// Line `i` of the body of the table: bid `i` beside ask `i`.
pub open spec fn body_text(bids: Seq<PriceLevel>, asks: Seq<PriceLevel>, i: int) -> Seq<char> {
    row_text(
        price_cell(bids, i),
        quantity_cell(bids, i),
        price_cell(asks, i),
        quantity_cell(asks, i),
    )
}

/// `lines` is the table of the two sides: an empty line, the heading, the
/// rule, and one line for each rank that either side fills.
pub open spec fn is_table_of(
    lines: Seq<String>,
    bids: Seq<PriceLevel>,
    asks: Seq<PriceLevel>,
) -> bool {
    &&& lines.len() == 3 + if bids.len() >= asks.len() {
        bids.len()
    } else {
        asks.len()
    }
    &&& lines[0]@ == Seq::<char>::empty()
    &&& lines[1]@ == header_text()
    &&& lines[2]@ == RULE@
    &&& forall|i: int|
        3 <= i < lines.len() ==> (#[trigger] lines[i])@ == body_text(bids, asks, i - 3)
}

/// Appends `text` to `out`, and spaces after it up to `width` characters.
fn push_padded(out: &mut String, text: &str, width: usize)
    ensures
        final(out)@ == old(out)@ + pad_right(text@, width as nat),
{
    out.append(text);
    let len = text.unicode_len();
    let ghost start = out@;
    let mut filled: usize = len;
    proof {
        assert(start + spaces(0) =~= start);
    }
    while filled < width
        invariant
            len <= filled,
            filled <= width || filled == len,
            out@ == start + spaces((filled - len) as nat),
        decreases width - filled,
    {
        out.append(" ");
        proof {
            reveal_strlit(" ");
            assert(start + spaces((filled - len) as nat) + " "@ =~= start + spaces(
                (filled + 1 - len) as nat,
            ));
        }
        filled += 1;
    }
    proof {
        if len < width {
            assert(old(out)@ + text@ + spaces((width - len) as nat) =~= old(out)@ + (text@
                + spaces((width - len) as nat)));
        } else {
            assert(start + spaces(0) =~= start);
        }
    }
}

/// One line of the table.
pub fn format_row(
    bid_price: &str,
    bid_quantity: &str,
    ask_price: &str,
    ask_quantity: &str,
) -> (line: String)
    ensures
        line@ == row_text(bid_price@, bid_quantity@, ask_price@, ask_quantity@),
{
    let mut line = String::new();
    push_padded(&mut line, bid_price, COLUMN_WIDTH);
    line.append(" ");
    push_padded(&mut line, bid_quantity, COLUMN_WIDTH);
    line.append("   |   ");
    push_padded(&mut line, ask_price, COLUMN_WIDTH);
    line.append(" ");
    push_padded(&mut line, ask_quantity, COLUMN_WIDTH);
    proof {
        reveal_strlit(" ");
        reveal_strlit("   |   ");
        assert(" "@ =~= seq![' ']);
        assert("   |   "@ =~= seq![' ', ' ', ' ', '|', ' ', ' ', ' ']);
        assert(line@ =~= row_text(bid_price@, bid_quantity@, ask_price@, ask_quantity@));
    }
    line
}

/// The price of level `i`, as text; empty where there is no such level.
fn price_cell_of(levels: &Vec<PriceLevel>, i: usize) -> (text: String)
    ensures
        text@ == price_cell(levels@, i as int),
{
    if i < levels.len() {
        format_price(levels[i].price)
    } else {
        String::new()
    }
}

/// The quantity of level `i`, as text; empty where there is no such level.
fn quantity_cell_of(levels: &Vec<PriceLevel>, i: usize) -> (text: String)
    ensures
        text@ == quantity_cell(levels@, i as int),
{
    if i < levels.len() {
        format_u64(levels[i].quantity)
    } else {
        String::new()
    }
}

impl Snapshot {
    /// The snapshot as the lines of a table.
    pub fn render(&self) -> (lines: Vec<String>)
        ensures
            is_table_of(lines@, self.bids@, self.asks@),
    {
        let rows = if self.bids.len() >= self.asks.len() {
            self.bids.len()
        } else {
            self.asks.len()
        };
        let mut lines: Vec<String> = Vec::new();
        lines.push(String::new());
        lines.push(format_row("Bid Price", "Quantity", "Ask Price", "Quantity"));
        lines.push(String::from_str(RULE));
        let mut i: usize = 0;
        while i < rows
            invariant
                i <= rows,
                lines@.len() == 3 + i,
                lines@[0]@ == Seq::<char>::empty(),
                lines@[1]@ == header_text(),
                lines@[2]@ == RULE@,
                forall|j: int|
                    3 <= j < lines@.len() ==> (#[trigger] lines@[j])@ == body_text(
                        self.bids@,
                        self.asks@,
                        j - 3,
                    ),
            decreases rows - i,
        {
            let bid_price = price_cell_of(&self.bids, i);
            let bid_quantity = quantity_cell_of(&self.bids, i);
            let ask_price = price_cell_of(&self.asks, i);
            let ask_quantity = quantity_cell_of(&self.asks, i);
            lines.push(
                format_row(
                    bid_price.as_str(),
                    bid_quantity.as_str(),
                    ask_price.as_str(),
                    ask_quantity.as_str(),
                ),
            );
            i += 1;
        }
        lines
    }
}

impl OrderBook {
    /// The book as the lines of a table, best levels first, ready to be
    /// printed one by one.
    pub fn display(&self) -> (lines: Vec<String>)
        requires
            self.wf(),
        ensures
            exists|snap: Snapshot|
                crate::orderbook::is_snapshot_of(snap, *self) && is_table_of(
                    lines@,
                    snap.bids@,
                    snap.asks@,
                ),
    {
        let snap = self.snapshot();
        snap.render()
    }
}

} // verus!
