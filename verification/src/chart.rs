//! The diagnostic color chart: the whole byte-to-color mapping as text.
//!
//! One entry per byte value, in ascending order: a `#` followed by the six
//! uppercase hex digits of the color's channels. Entries are separated by a
//! single space, with a line break after every 16th entry, giving 16 lines
//! of 16 entries.

use vstd::prelude::*;
use crate::color::Color;
use crate::color::byte_to_color;
use crate::color::color_of;

verus! {

/// The uppercase hex digit for a value in 0..=15.
pub open spec fn hex_digit(d: int) -> char {
    if d == 0 {
        '0'
    } else if d == 1 {
        '1'
    } else if d == 2 {
        '2'
    } else if d == 3 {
        '3'
    } else if d == 4 {
        '4'
    } else if d == 5 {
        '5'
    } else if d == 6 {
        '6'
    } else if d == 7 {
        '7'
    } else if d == 8 {
        '8'
    } else if d == 9 {
        '9'
    } else if d == 10 {
        'A'
    } else if d == 11 {
        'B'
    } else if d == 12 {
        'C'
    } else if d == 13 {
        'D'
    } else if d == 14 {
        'E'
    } else {
        'F'
    }
}

/// The two uppercase hex digits of a channel value.
pub open spec fn hex_byte_chars(v: u8) -> Seq<char> {
    seq![hex_digit((v as int) / 16), hex_digit((v as int) % 16)]
}

/// One chart entry: `#` and the six hex digits of byte `b`'s color,
/// closed by a newline in the last of 16 columns and by a space elsewhere.
pub open spec fn chart_entry(b: u8) -> Seq<char> {
    seq!['#'] + hex_byte_chars(color_of(b).r) + hex_byte_chars(color_of(b).g) + hex_byte_chars(
        color_of(b).b,
    ) + if (b as int) % 16 == 15 {
        seq!['\n']
    } else {
        seq![' ']
    }
}

/// The chart entries of the first `n` byte values, in ascending order.
pub open spec fn chart_prefix(n: int) -> Seq<char>
    decreases n,
{
    if n <= 0 {
        Seq::empty()
    } else {
        chart_prefix(n - 1) + chart_entry((n - 1) as u8)
    }
}

/// The full chart: all 256 byte values.
pub open spec fn chart_text() -> Seq<char> {
    chart_prefix(256)
}

/// Every entry is eight characters (`#`, six digits, one separator), so
/// the chart of the first `n` byte values is `8 * n` characters long.
proof fn lemma_chart_prefix_len(n: int)
    requires
        0 <= n,
    ensures
        chart_prefix(n).len() == 8 * n,
    decreases n,
{
    if n > 0 {
        lemma_chart_prefix_len(n - 1);
    }
}

/// The full chart holds its 256 eight-character entries and nothing else.
pub proof fn lemma_chart_len()
    ensures
        chart_text().len() == 2048,
{
    lemma_chart_prefix_len(256);
}

/// The uppercase hex digit for a value in 0..=15, as a string slice.
fn hex_digit_str(d: u8) -> (r: &'static str)
    requires
        d < 16,
    ensures
        r@ == seq![hex_digit(d as int)],
{
    proof {
        reveal_strlit("0");
        reveal_strlit("1");
        reveal_strlit("2");
        reveal_strlit("3");
        reveal_strlit("4");
        reveal_strlit("5");
        reveal_strlit("6");
        reveal_strlit("7");
        reveal_strlit("8");
        reveal_strlit("9");
        reveal_strlit("A");
        reveal_strlit("B");
        reveal_strlit("C");
        reveal_strlit("D");
        reveal_strlit("E");
        reveal_strlit("F");
    }
    let r: &'static str = if d == 0 {
        "0"
    } else if d == 1 {
        "1"
    } else if d == 2 {
        "2"
    } else if d == 3 {
        "3"
    } else if d == 4 {
        "4"
    } else if d == 5 {
        "5"
    } else if d == 6 {
        "6"
    } else if d == 7 {
        "7"
    } else if d == 8 {
        "8"
    } else if d == 9 {
        "9"
    } else if d == 10 {
        "A"
    } else if d == 11 {
        "B"
    } else if d == 12 {
        "C"
    } else if d == 13 {
        "D"
    } else if d == 14 {
        "E"
    } else {
        "F"
    };
    proof {
        assert(r@ =~= seq![hex_digit(d as int)]);
    }
    r
}

/// Append the two uppercase hex digits of a channel value.
fn append_hex_byte(out: &mut String, v: u8)
    ensures
        final(out)@ == old(out)@ + hex_byte_chars(v),
{
    out.append(hex_digit_str(v / 16));
    out.append(hex_digit_str(v % 16));
    proof {
        assert(final(out)@ =~= old(out)@ + hex_byte_chars(v));
    }
}

/// Render the full color chart: one `#RRGGBB` entry per byte value in
/// ascending order, space-separated, 16 entries per line.
pub fn render_chart() -> (r: String)
    ensures
        r@ == chart_text(),
{
    let mut out: String = String::new();
    let mut i: u16 = 0;
    while i < 256
        invariant
            i <= 256,
            out@ == chart_prefix(i as int),
        decreases 256 - i,
    {
        let b: u8 = i as u8;
        let c: Color = byte_to_color(b);
        out.append("#");
        append_hex_byte(&mut out, c.r);
        append_hex_byte(&mut out, c.g);
        append_hex_byte(&mut out, c.b);
        if b % 16 == 15 {
            out.append("\n");
        } else {
            out.append(" ");
        }
        proof {
            reveal_strlit("#");
            reveal_strlit("\n");
            reveal_strlit(" ");
            assert(out@ =~= chart_prefix(i as int) + chart_entry(b));
        }
        i = i + 1;
    }
    out
}

} // verus!
