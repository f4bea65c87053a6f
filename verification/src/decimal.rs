//! Decimal text: quantities as whole numbers, prices as fixed-point numbers
//! counted in ticks of one hundred-millionth.

use vstd::prelude::*;
use vstd::std_specs::iter::IteratorSpec;
use vstd::string::StringExecFns;

verus! {

/// Number of digits kept after the decimal point of a price.
pub const PRICE_DECIMALS: usize = 8;

/// Ticks in one unit of price: ten to the power [`PRICE_DECIMALS`].
pub const PRICE_SCALE: u64 = 100_000_000;

/// `c` is one of the ten decimal digits.
pub open spec fn is_digit(c: char) -> bool {
    '0' <= c <= '9'
}

/// The number that a decimal digit stands for.
pub open spec fn digit_value(c: char) -> nat {
    (c as nat - '0' as nat) as nat
}

/// Every character of `s` is a decimal digit.
pub open spec fn all_digits(s: Seq<char>) -> bool {
    forall|i: int| 0 <= i < s.len() ==> is_digit(#[trigger] s[i])
}

/// The number that a run of decimal digits stands for; zero for the empty
/// run.
pub open spec fn digits_value(s: Seq<char>) -> nat
    decreases s.len(),
{
    if s.len() == 0 {
        0
    } else {
        digits_value(s.drop_last()) * 10 + digit_value(s.last())
    }
}

/// Ten to the power `e`.
pub open spec fn pow10(e: nat) -> nat
    decreases e,
{
    if e == 0 {
        1
    } else {
        10 * pow10((e - 1) as nat)
    }
}

/// The number that `s` stands for, where `s` is made of digits only and the
/// number fits in 64 bits.
pub open spec fn checked_digits(s: Seq<char>) -> Option<u64> {
    if all_digits(s) && digits_value(s) <= u64::MAX {
        Some(digits_value(s) as u64)
    } else {
        None
    }
}

/// The quantity that `s` stands for: one or more digits, after an optional
/// `+`, whose number fits in 64 bits.
pub open spec fn quantity_of(s: Seq<char>) -> Option<u64> {
    let body = if s.len() > 0 && s[0] == '+' {
        s.drop_first()
    } else {
        s
    };
    if body.len() == 0 {
        None
    } else {
        checked_digits(body)
    }
}

/// Where the first `.` of `s` stands; the length of `s` where it has none.
pub open spec fn dot_position(s: Seq<char>) -> int
    decreases s.len(),
{
    if s.len() == 0 || s[0] == '.' {
        0
    } else {
        1 + dot_position(s.drop_first())
    }
}

/// The price, in ticks, that `s` stands for: one or more digits, then
/// optionally a `.` and one to [`PRICE_DECIMALS`] digits, whose number of
/// ticks fits in 64 bits.
pub open spec fn price_of(s: Seq<char>) -> Option<u64> {
    let dot = dot_position(s);
    let whole = s.take(dot);
    let frac = if dot < s.len() {
        s.skip(dot + 1)
    } else {
        Seq::<char>::empty()
    };
    if whole.len() == 0 || !all_digits(whole) || !all_digits(frac) {
        None
    } else if dot < s.len() && (frac.len() == 0 || frac.len() > PRICE_DECIMALS) {
        None
    } else {
        let ticks = digits_value(whole) * PRICE_SCALE + digits_value(frac) * pow10(
            (PRICE_DECIMALS - frac.len()) as nat,
        );
        if ticks <= u64::MAX {
            Some(ticks as u64)
        } else {
            None
        }
    }
}

/// The number of a run of digits is no less than that of any run it starts
/// with.
pub proof fn lemma_digits_value_grows(s: Seq<char>, i: int)
    requires
        0 <= i <= s.len(),
    ensures
        digits_value(s.take(i)) <= digits_value(s),
    decreases s.len(),
{
    if i < s.len() {
        let front = s.drop_last();
        assert(front.take(i) == s.take(i));
        lemma_digits_value_grows(front, i);
    } else {
        assert(s.take(i) == s);
    }
}

/// A run of `n` digits stands for a number below ten to the power `n`.
pub proof fn lemma_digits_value_bound(s: Seq<char>)
    requires
        all_digits(s),
    ensures
        digits_value(s) < pow10(s.len()),
    decreases s.len(),
{
    if s.len() > 0 {
        let front = s.drop_last();
        assert forall|i: int| 0 <= i < front.len() implies is_digit(#[trigger] front[i]) by {
            assert(front[i] == s[i]);
        }
        lemma_digits_value_bound(front);
        assert(digit_value(s.last()) <= 9);
    }
}

/// The characters of a string, one by one.
pub fn chars_of(s: &str) -> (out: Vec<char>)
    ensures
        out@ == s@,
{
    broadcast use vstd::string::group_string_axioms;

    let mut out: Vec<char> = Vec::new();
    for c in it: s.chars()
        invariant
            it.seq() == s@,
            out@ == s@.take(it.index()),
    {
        proof {
            assert(s@.take(it.index() + 1) == s@.take(it.index()).push(c));
        }
        out.push(c);
    }
    proof {
        assert(s@.take(s@.len() as int) == s@);
    }
    out
}

/// The number that the characters from `from` up to `to` stand for, where
/// they are all digits and the number fits in 64 bits.
pub fn parse_digits(text: &Vec<char>, from: usize, to: usize) -> (value: Option<u64>)
    requires
        from <= to <= text.len(),
    ensures
        value == checked_digits(text@.subrange(from as int, to as int)),
{
    let ghost run = text@.subrange(from as int, to as int);
    let mut value: u64 = 0;
    let mut i: usize = from;
    while i < to
        invariant
            from <= i <= to <= text.len(),
            run == text@.subrange(from as int, to as int),
            all_digits(run.take(i - from)),
            value == digits_value(run.take(i - from)),
        decreases to - i,
    {
        let c = text[i];
        let ghost seen = run.take(i - from);
        let ghost next = run.take(i - from + 1);
        proof {
            assert(run[i - from] == c);
            assert(next.drop_last() == seen);
            assert(next.last() == c);
            lemma_digits_value_grows(run, i - from + 1);
        }
        if c < '0' || c > '9' {
            assert(!is_digit(run[i - from]));
            return None;
        }
        let d: u64 = (c as u8 - '0' as u8) as u64;
        assert(d == digit_value(c));
        if value > (u64::MAX - d) / 10 {
            assert(digits_value(next) > u64::MAX);
            return None;
        }
        value = value * 10 + d;
        proof {
            assert forall|j: int| 0 <= j < next.len() implies is_digit(#[trigger] next[j]) by {
                if j < seen.len() {
                    assert(seen[j] == next[j]);
                }
            }
        }
        i += 1;
    }
    proof {
        assert(run.take(to - from) == run);
    }
    Some(value)
}

/// The first powers of ten, written out.
pub proof fn lemma_pow10_values()
    ensures
        pow10(0) == 1,
        pow10(1) == 10,
        pow10(2) == 100,
        pow10(3) == 1_000,
        pow10(4) == 10_000,
        pow10(5) == 100_000,
        pow10(6) == 1_000_000,
        pow10(7) == 10_000_000,
        pow10(8) == 100_000_000,
{
    reveal_with_fuel(pow10, 10);
}

/// Where the first `.` stands; the length of `text` where it has none.
fn find_dot(text: &Vec<char>) -> (dot: usize)
    ensures
        dot == dot_position(text@),
        dot <= text.len(),
{
    let mut i: usize = 0;
    proof {
        assert(text@.skip(0) == text@);
    }
    while i < text.len() && text[i] != '.'
        invariant
            i <= text.len(),
            dot_position(text@) == i + dot_position(text@.skip(i as int)),
        decreases text.len() - i,
    {
        proof {
            let rest = text@.skip(i as int);
            assert(rest[0] == text@[i as int]);
            assert(rest.drop_first() == text@.skip(i + 1));
        }
        i += 1;
    }
    proof {
        let rest = text@.skip(i as int);
        if i < text.len() {
            assert(rest[0] == text@[i as int]);
        }
    }
    i
}

/// A fraction of `len` digits, as a number of ticks.
fn scale_fraction(frac: u64, len: usize) -> (ticks: u64)
    requires
        len <= PRICE_DECIMALS,
        frac < pow10(len as nat),
    ensures
        ticks == frac * pow10((PRICE_DECIMALS - len) as nat),
        ticks < PRICE_SCALE,
{
    proof {
        lemma_pow10_values();
    }
    let factor: u64 = if len == 0 {
        100_000_000
    } else if len == 1 {
        10_000_000
    } else if len == 2 {
        1_000_000
    } else if len == 3 {
        100_000
    } else if len == 4 {
        10_000
    } else if len == 5 {
        1_000
    } else if len == 6 {
        100
    } else if len == 7 {
        10
    } else {
        1
    };
    assert(factor == pow10((PRICE_DECIMALS - len) as nat));
    assert(factor * pow10(len as nat) == PRICE_SCALE) by {
        let p = pow10(len as nat);
        if len == 0 {
            assert(factor * p == 100_000_000 * 1);
        } else if len == 1 {
            assert(factor * p == 10_000_000 * 10);
        } else if len == 2 {
            assert(factor * p == 1_000_000 * 100);
        } else if len == 3 {
            assert(factor * p == 100_000 * 1_000);
        } else if len == 4 {
            assert(factor * p == 10_000 * 10_000);
        } else if len == 5 {
            assert(factor * p == 1_000 * 100_000);
        } else if len == 6 {
            assert(factor * p == 100 * 1_000_000);
        } else if len == 7 {
            assert(factor * p == 10 * 10_000_000);
        } else {
            assert(factor * p == 1 * 100_000_000);
        }
    }
    assert(frac * factor < PRICE_SCALE) by (nonlinear_arith)
        requires
            frac < pow10(len as nat),
            factor * pow10(len as nat) == PRICE_SCALE,
            factor > 0,
    ;
    frac * factor
}

/// Reads a quantity: one or more digits after an optional `+`. `None` where
/// the text is anything else, or the number does not fit in 64 bits.
pub fn parse_quantity(s: &str) -> (quantity: Option<u64>)
    ensures
        quantity == quantity_of(s@),
{
    let text = chars_of(s);
    let from: usize = if text.len() > 0 && text[0] == '+' {
        1
    } else {
        0
    };
    if from == text.len() {
        return None;
    }
    proof {
        assert(text@.subrange(0, text@.len() as int) == text@);
        assert(text@.subrange(1, text@.len() as int) == text@.drop_first());
    }
    parse_digits(&text, from, text.len())
}

/// Reads a price as a number of ticks: one or more digits, then optionally
/// a `.` and one to [`PRICE_DECIMALS`] digits. `None` where the text is
/// anything else, or the number of ticks does not fit in 64 bits.
pub fn parse_price(s: &str) -> (ticks: Option<u64>)
    ensures
        ticks == price_of(s@),
{
    let text = chars_of(s);
    let dot = find_dot(&text);
    let ghost whole_run = text@.take(dot as int);
    let ghost frac_run = if dot < text.len() {
        text@.skip(dot + 1)
    } else {
        Seq::<char>::empty()
    };
    proof {
        assert(text@.subrange(0, dot as int) == whole_run);
        lemma_pow10_values();
    }
    if dot == 0 {
        return None;
    }
    let mut frac: u64 = 0;
    let mut frac_len: usize = 0;
    if dot < text.len() {
        frac_len = text.len() - dot - 1;
        if frac_len == 0 || frac_len > PRICE_DECIMALS {
            return None;
        }
        proof {
            assert(text@.subrange(dot + 1, text@.len() as int) == frac_run);
        }
        match parse_digits(&text, dot + 1, text.len()) {
            Some(f) => {
                frac = f;
            },
            None => {
                proof {
                    if all_digits(frac_run) {
                        lemma_digits_value_bound(frac_run);
                        lemma_pow10_below_scale(frac_run.len());
                    }
                }
                return None;
            },
        }
    }
    proof {
        lemma_digits_value_bound(frac_run);
    }
    let scaled = scale_fraction(frac, frac_len);
    match parse_digits(&text, 0, dot) {
        Some(whole) => {
            if whole > (u64::MAX - scaled) / PRICE_SCALE {
                None
            } else {
                Some(whole * PRICE_SCALE + scaled)
            }
        },
        None => {
            proof {
                if all_digits(whole_run) {
                    assert(digits_value(whole_run) * PRICE_SCALE > u64::MAX);
                }
            }
            None
        },
    }
}

/// Ten to a power of at most [`PRICE_DECIMALS`] is at most [`PRICE_SCALE`].
pub proof fn lemma_pow10_below_scale(e: nat)
    requires
        e <= PRICE_DECIMALS,
    ensures
        pow10(e) <= PRICE_SCALE,
{
    lemma_pow10_values();
    if e == 0 {
    } else if e == 1 {
    } else if e == 2 {
    } else if e == 3 {
    } else if e == 4 {
    } else if e == 5 {
    } else if e == 6 {
    } else if e == 7 {
    } else {
    }
}

/// The character that stands for a number below ten.
pub open spec fn digit_char(d: nat) -> char {
    if d == 0 {
        '0'
    } else if d == 1 {
        '1'
    } else if d == 2 {
        '2'
    } else if d == 3 {
        '3'
    } else if d == 4 {
        '4'
    } else if d == 5 {
        '5'
    } else if d == 6 {
        '6'
    } else if d == 7 {
        '7'
    } else if d == 8 {
        '8'
    } else {
        '9'
    }
}

/// A number in decimal digits, without leading zeros; `0` for zero.
pub open spec fn decimal_text(n: nat) -> Seq<char>
    decreases n,
{
    if n < 10 {
        seq![digit_char(n)]
    } else {
        decimal_text(n / 10).push(digit_char(n % 10))
    }
}

/// The decimal digits of a number are digits, and they stand for the
/// number.
pub proof fn lemma_decimal_text_reads_back(n: nat)
    ensures
        decimal_text(n).len() > 0,
        all_digits(decimal_text(n)),
        digits_value(decimal_text(n)) == n,
    decreases n,
{
    if n < 10 {
        let s = seq![digit_char(n)];
        assert(s.drop_last() =~= Seq::<char>::empty());
        assert(digits_value(s.drop_last()) == 0);
        assert(s.last() == digit_char(n));
    } else {
        lemma_decimal_text_reads_back(n / 10);
        let front = decimal_text(n / 10);
        let s = front.push(digit_char(n % 10));
        assert(s.drop_last() =~= front);
        assert(s.last() == digit_char(n % 10));
        assert forall|i: int| 0 <= i < s.len() implies is_digit(#[trigger] s[i]) by {
            if i < front.len() {
                assert(s[i] == front[i]);
            }
        }
    }
}

/// The text of one decimal digit.
fn digit_str(d: u64) -> (text: &'static str)
    requires
        d < 10,
    ensures
        text@ == seq![digit_char(d as nat)],
{
    let text = if d == 0 {
        "0"
    } else if d == 1 {
        "1"
    } else if d == 2 {
        "2"
    } else if d == 3 {
        "3"
    } else if d == 4 {
        "4"
    } else if d == 5 {
        "5"
    } else if d == 6 {
        "6"
    } else if d == 7 {
        "7"
    } else if d == 8 {
        "8"
    } else {
        "9"
    };
    proof {
        reveal_strlit("0");
        reveal_strlit("1");
        reveal_strlit("2");
        reveal_strlit("3");
        reveal_strlit("4");
        reveal_strlit("5");
        reveal_strlit("6");
        reveal_strlit("7");
        reveal_strlit("8");
        reveal_strlit("9");
        assert(text@ =~= seq![digit_char(d as nat)]);
    }
    text
}

/// Appends the decimal digits of `n` to `out`.
fn push_decimal(out: &mut String, n: u64)
    ensures
        final(out)@ == old(out)@ + decimal_text(n as nat),
    decreases n,
{
    if n >= 10 {
        push_decimal(out, n / 10);
    }
    let ghost before = out@;
    out.append(digit_str(n % 10));
    proof {
        if n >= 10 {
            assert(old(out)@ + decimal_text((n / 10) as nat) + seq![digit_char((n % 10) as nat)]
                =~= old(out)@ + decimal_text((n / 10) as nat).push(digit_char((n % 10) as nat)));
        }
    }
}

/// A number in decimal digits.
pub fn format_u64(n: u64) -> (text: String)
    ensures
        text@ == decimal_text(n as nat),
{
    let mut text = String::new();
    push_decimal(&mut text, n);
    proof {
        assert(Seq::<char>::empty() + decimal_text(n as nat) =~= decimal_text(n as nat));
    }
    text
}

/// The last `width` decimal digits of `n`, with leading zeros where `n` has
/// fewer.
pub open spec fn fixed_digits(n: nat, width: nat) -> Seq<char>
    decreases width,
{
    if width == 0 {
        Seq::<char>::empty()
    } else {
        fixed_digits(n / 10, (width - 1) as nat).push(digit_char(n % 10))
    }
}

/// `s` without the zeros at its end.
pub open spec fn strip_zeros(s: Seq<char>) -> Seq<char>
    decreases s.len(),
{
    if s.len() > 0 && s.last() == '0' {
        strip_zeros(s.drop_last())
    } else {
        s
    }
}

/// A price in ticks as decimal text: the whole units, then, where the price
/// is no whole number of units, a `.` and the fraction without the zeros at
/// its end.
pub open spec fn price_text(ticks: u64) -> Seq<char> {
    let whole = (ticks / PRICE_SCALE) as nat;
    let frac = (ticks % PRICE_SCALE) as nat;
    if frac == 0 {
        decimal_text(whole)
    } else {
        decimal_text(whole) + seq!['.'] + strip_zeros(fixed_digits(frac, PRICE_DECIMALS as nat))
    }
}

/// Appends the last `width` decimal digits of `n` to `out`.
fn push_fixed(out: &mut String, n: u64, width: usize)
    ensures
        final(out)@ == old(out)@ + fixed_digits(n as nat, width as nat),
    decreases width,
{
    if width > 0 {
        push_fixed(out, n / 10, width - 1);
        out.append(digit_str(n % 10));
        proof {
            let front = fixed_digits((n / 10) as nat, (width - 1) as nat);
            assert(old(out)@ + front + seq![digit_char((n % 10) as nat)] =~= old(out)@
                + front.push(digit_char((n % 10) as nat)));
        }
    } else {
        proof {
            assert(old(out)@ + Seq::<char>::empty() =~= old(out)@);
        }
    }
}

/// A price in ticks as decimal text.
pub fn format_price(ticks: u64) -> (text: String)
    ensures
        text@ == price_text(ticks),
{
    let mut text = format_u64(ticks / PRICE_SCALE);
    let mut frac = ticks % PRICE_SCALE;
    if frac == 0 {
        return text;
    }
    let ghost whole_text = text@;
    let ghost full = fixed_digits(frac as nat, PRICE_DECIMALS as nat);
    let mut width: usize = PRICE_DECIMALS;
    proof {
        lemma_pow10_values();
    }
    while frac % 10 == 0
        invariant
            0 < frac < pow10(width as nat),
            width <= PRICE_DECIMALS,
            strip_zeros(fixed_digits(frac as nat, width as nat)) == strip_zeros(full),
        decreases frac,
    {
        proof {
            assert(width > 0) by {
                if width == 0 {
                    assert(pow10(0) == 1);
                }
            }
            let run = fixed_digits(frac as nat, width as nat);
            let front = fixed_digits((frac / 10) as nat, (width - 1) as nat);
            assert(run == front.push('0'));
            assert(run.last() == '0');
            assert(run.drop_last() =~= front);
            assert(pow10(width as nat) == 10 * pow10((width - 1) as nat));
        }
        frac = frac / 10;
        width = width - 1;
    }
    proof {
        assert(width > 0) by {
            if width == 0 {
                assert(pow10(0) == 1);
            }
        }
        let run = fixed_digits(frac as nat, width as nat);
        assert(run.last() == digit_char((frac % 10) as nat));
        assert(run.last() != '0');
        assert(strip_zeros(run) == run);
    }
    text.append(".");
    proof {
        reveal_strlit(".");
        assert("."@ =~= seq!['.']);
    }
    push_fixed(&mut text, frac, width);
    text
}

/// In text that starts with digits, the first `.` stands no earlier than
/// where the digits end.
pub proof fn lemma_dot_after_digits(digits: Seq<char>, rest: Seq<char>)
    requires
        all_digits(digits),
    ensures
        dot_position(digits + rest) == digits.len() + dot_position(rest),
    decreases digits.len(),
{
    if digits.len() == 0 {
        assert(digits + rest =~= rest);
    } else {
        let text = digits + rest;
        assert(text[0] == digits[0]);
        assert(is_digit(digits[0]));
        let tail = digits.drop_first();
        assert forall|i: int| 0 <= i < tail.len() implies is_digit(#[trigger] tail[i]) by {
            assert(tail[i] == digits[i + 1]);
        }
        assert(text.drop_first() =~= tail + rest);
        lemma_dot_after_digits(tail, rest);
    }
}

/// The last `width` digits of a number below ten to the power `width` are
/// `width` digits that stand for the number.
pub proof fn lemma_fixed_digits_read_back(n: nat, width: nat)
    requires
        n < pow10(width),
    ensures
        fixed_digits(n, width).len() == width,
        all_digits(fixed_digits(n, width)),
        digits_value(fixed_digits(n, width)) == n,
    decreases width,
{
    if width > 0 {
        let front = fixed_digits(n / 10, (width - 1) as nat);
        let s = front.push(digit_char(n % 10));
        lemma_fixed_digits_read_back(n / 10, (width - 1) as nat);
        assert(s.drop_last() =~= front);
        assert(s.last() == digit_char(n % 10));
        assert forall|i: int| 0 <= i < s.len() implies is_digit(#[trigger] s[i]) by {
            if i < front.len() {
                assert(s[i] == front[i]);
            }
        }
    }
}

/// Without the zeros at its end a run of digits is a run of digits still,
/// no longer than before, and stands for the number that, followed by as
/// many zeros as were taken, the full run stands for. Where that number is
/// not zero, digits are left.
pub proof fn lemma_strip_zeros(s: Seq<char>)
    requires
        all_digits(s),
    ensures
        all_digits(strip_zeros(s)),
        strip_zeros(s).len() <= s.len(),
        digits_value(strip_zeros(s)) * pow10((s.len() - strip_zeros(s).len()) as nat)
            == digits_value(s),
        digits_value(s) > 0 ==> strip_zeros(s).len() > 0,
    decreases s.len(),
{
    if s.len() > 0 && s.last() == '0' {
        let front = s.drop_last();
        assert forall|i: int| 0 <= i < front.len() implies is_digit(#[trigger] front[i]) by {
            assert(front[i] == s[i]);
        }
        lemma_strip_zeros(front);
        let kept = strip_zeros(front);
        let gone = (front.len() - kept.len()) as nat;
        assert(pow10(gone + 1) == 10 * pow10(gone));
        assert(digits_value(kept) * pow10(gone + 1) == digits_value(s)) by (nonlinear_arith)
            requires
                digits_value(kept) * pow10(gone) == digits_value(front),
                pow10(gone + 1) == 10 * pow10(gone),
                digits_value(s) == digits_value(front) * 10,
        ;
        assert(strip_zeros(s) == kept);
        assert((s.len() - kept.len()) as nat == gone + 1);
    } else {
        assert(strip_zeros(s) == s);
        assert((s.len() - s.len()) as nat == 0);
        assert(pow10(0) == 1);
        assert(digits_value(s) * 1 == digits_value(s));
    }
}

/// A price written by [`price_text`] reads back as the same price.
pub proof fn lemma_price_text_reads_back(ticks: u64)
    ensures
        price_of(price_text(ticks)) == Some(ticks),
{
    let whole = (ticks / PRICE_SCALE) as nat;
    let frac = (ticks % PRICE_SCALE) as nat;
    let units = decimal_text(whole);
    lemma_decimal_text_reads_back(whole);
    lemma_pow10_values();
    if frac == 0 {
        lemma_dot_after_digits(units, Seq::<char>::empty());
        assert(units + Seq::<char>::empty() =~= units);
        assert(units.take(units.len() as int) =~= units);
        assert(digits_value(Seq::<char>::empty()) == 0);
    } else {
        let full = fixed_digits(frac, PRICE_DECIMALS as nat);
        lemma_fixed_digits_read_back(frac, PRICE_DECIMALS as nat);
        lemma_strip_zeros(full);
        let kept = strip_zeros(full);
        let tail = seq!['.'] + kept;
        let text = units + seq!['.'] + kept;
        assert(text =~= units + tail);
        assert(tail[0] == '.');
        lemma_dot_after_digits(units, tail);
        let dot = units.len() as int;
        assert(dot_position(text) == dot);
        assert(text.take(dot) =~= units);
        assert(text.skip(dot + 1) =~= kept);
    }
}

/// A quantity written in decimal digits reads back as the same quantity.
pub proof fn lemma_quantity_text_reads_back(n: u64)
    ensures
        quantity_of(decimal_text(n as nat)) == Some(n),
{
    lemma_decimal_text_reads_back(n as nat);
    let text = decimal_text(n as nat);
    assert(is_digit(text[0]));
}

} // verus!
