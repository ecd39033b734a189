//! The tray icon: its progress level, the digits drawn on it, its colour and
//! tooltip for each printer state, and when the floating window shows.

use vstd::prelude::*;
use crate::stdtext::{to_uppercase, uppercase};
use crate::json::{JsonNumber, JsonValue};
use crate::report::{number_of, str_of, str_or, number_or_zero};
use crate::text::{owned, push_decimal, push_signed_decimal, signed_decimal, decimal, str_eq};

verus! {

// ── Progress level ───────────────────────────────────────────────────────────

/// The progress level shown by the icon for a progress of `whole_percent`
/// (the percentage rounded down): the highest of 0, 25, 50, 75 and 100 that
/// the progress, held to 0..=100, reaches.
pub open spec fn level_of(whole_percent: int) -> i32 {
    if whole_percent >= 100 {
        100
    } else if whole_percent >= 75 {
        75
    } else if whole_percent >= 50 {
        50
    } else if whole_percent >= 25 {
        25
    } else {
        0
    }
}

/// The icon's progress level, one of five: 0, 25, 50, 75 or 100.
pub fn progress_level(whole_percent: i64) -> (r: i32)
    ensures
        r == level_of(whole_percent as int),
{
    let p: i64 = if whole_percent < 0 {
        0
    } else if whole_percent > 100 {
        100
    } else {
        whole_percent
    };
    if p >= 100 {
        100
    } else if p >= 75 {
        75
    } else if p >= 50 {
        50
    } else if p >= 25 {
        25
    } else {
        0
    }
}

/// The icon shows one of five levels: the highest quarter mark the progress
/// (held to 0..=100) reaches.
pub proof fn law_five_levels(p: int)
    ensures
        level_of(p) == 0 || level_of(p) == 25 || level_of(p) == 50 || level_of(p) == 75 || level_of(p) == 100,
        level_of(p) <= clamp_percent(p),
        level_of(p) == 100 || clamp_percent(p) < level_of(p) + 25,
{
}

/// More progress never shows a lower level.
pub proof fn law_level_monotone(a: int, b: int)
    requires
        a <= b,
    ensures
        level_of(a) <= level_of(b),
{
}

// ── Digits ───────────────────────────────────────────────────────────────────

/// The 3x5 glyph of a decimal digit: one 3-bit row pattern per row, the
/// highest bit the leftmost column.
pub open spec fn glyph(digit: int) -> Seq<u8> {
    if digit == 0 {
        seq![7u8, 5u8, 5u8, 5u8, 7u8]
    } else if digit == 1 {
        seq![2u8, 6u8, 2u8, 2u8, 7u8]
    } else if digit == 2 {
        seq![7u8, 1u8, 7u8, 4u8, 7u8]
    } else if digit == 3 {
        seq![7u8, 1u8, 7u8, 1u8, 7u8]
    } else if digit == 4 {
        seq![5u8, 5u8, 7u8, 1u8, 1u8]
    } else if digit == 5 {
        seq![7u8, 4u8, 7u8, 1u8, 7u8]
    } else if digit == 6 {
        seq![7u8, 4u8, 7u8, 5u8, 7u8]
    } else if digit == 7 {
        seq![7u8, 1u8, 1u8, 1u8, 1u8]
    } else if digit == 8 {
        seq![7u8, 5u8, 7u8, 5u8, 7u8]
    } else {
        seq![7u8, 5u8, 7u8, 1u8, 7u8]
    }
}

/// Whether column `col` (0 = left) of row `row` of the digit's glyph is set.
pub open spec fn glyph_lit(digit: int, row: int, col: int) -> bool {
    let bits = glyph(digit)[row];
    if col == 0 {
        (bits / 4) % 2 == 1
    } else if col == 1 {
        (bits / 2) % 2 == 1
    } else {
        bits % 2 == 1
    }
}

/// The pixel number (row-major, `w` pixels a row) of glyph cell (`row`,
/// `col`) drawn with its top-left corner at (`x`, `y`).
pub open spec fn cell_pixel(x: int, y: int, w: int, row: int, col: int) -> int {
    (y + row) * w + (x + col)
}

/// Glyph cell number `t` (row `t / 3`, column `t % 3`) of the digit is set
/// and lands on pixel `p`, whose bytes lie in a buffer of `len` bytes.
pub open spec fn cell_hits(x: int, y: int, w: int, digit: int, len: int, p: int, t: int) -> bool {
    &&& glyph_lit(digit, t / 3, t % 3)
    &&& cell_pixel(x, y, w, t / 3, t % 3) == p
    &&& 4 * p + 2 < len
}

/// Some of the first `t` glyph cells hits pixel `p`.
pub open spec fn painted_upto(x: int, y: int, w: int, digit: int, len: int, p: int, t: int) -> bool
    decreases t,
{
    if t <= 0 {
        false
    } else {
        painted_upto(x, y, w, digit, len, p, t - 1) || cell_hits(x, y, w, digit, len, p, t - 1)
    }
}

/// Pixel `p` is painted when the digit is drawn: some set cell of its glyph
/// lands on it, inside the buffer.
pub open spec fn painted(x: int, y: int, w: int, digit: int, len: int, p: int) -> bool {
    painted_upto(x, y, w, digit, len, p, 15)
}

/// Byte `k % 4` of an RGBA pixel in colour `color`, fully opaque.
pub open spec fn color_byte(color: (u8, u8, u8), k: int) -> u8 {
    if k % 4 == 0 {
        color.0
    } else if k % 4 == 1 {
        color.1
    } else if k % 4 == 2 {
        color.2
    } else {
        255u8
    }
}

/// The RGBA buffer `buf` with `digit` drawn at (`x`, `y`) in `color`.
pub open spec fn with_digit(buf: Seq<u8>, x: int, y: int, w: int, digit: int, color: (u8, u8, u8)) -> Seq<u8> {
    Seq::new(
        buf.len(),
        |k: int|
            if painted(x, y, w, digit, buf.len() as int, k / 4) {
                color_byte(color, k)
            } else {
                buf[k]
            },
    )
}

/// Drawing the digit computes every pixel offset without overflow.
pub open spec fn digit_offsets_fit(x: int, y: int, w: int) -> bool {
    &&& y + 4 <= usize::MAX
    &&& ((y + 4) * w + x + 2) * 4 + 2 <= usize::MAX
}

/// No set cell's pixel starts three bytes before the end of the buffer (its
/// alpha byte would lie past the end).
pub open spec fn digit_fits(x: int, y: int, w: int, digit: int, len: int) -> bool {
    forall|t: int| 0 <= t < 15 && #[trigger] glyph_lit(digit, t / 3, t % 3) ==> cell_pixel(x, y, w, t / 3, t % 3) * 4 + 3 != len
}

fn glyph_row(digit: u8, row: usize) -> (bits: u8)
    requires
        digit <= 9,
        row < 5,
    ensures
        bits == glyph(digit as int)[row as int],
{
    let patterns: [[u8; 5]; 10] = [
        [7, 5, 5, 5, 7],
        [2, 6, 2, 2, 7],
        [7, 1, 7, 4, 7],
        [7, 1, 7, 1, 7],
        [5, 5, 7, 1, 1],
        [7, 4, 7, 1, 7],
        [7, 4, 7, 5, 7],
        [7, 1, 1, 1, 1],
        [7, 5, 7, 5, 7],
        [7, 5, 7, 1, 7],
    ];
    let pattern = patterns[digit as usize];
    pattern[row]
}

proof fn lemma_cell_pixel_bound(x: int, y: int, w: int, row: int, col: int)
    requires
        0 <= x,
        0 <= y,
        0 <= w,
        0 <= row < 5,
        0 <= col < 3,
    ensures
        0 <= cell_pixel(x, y, w, row, col) <= (y + 4) * w + x + 2,
        0 <= (y + row) * w <= (y + 4) * w,
{
    assert((y + row) * w <= (y + 4) * w) by (nonlinear_arith)
        requires
            0 <= w,
            row < 5,
            0 <= y,
            0 <= row,
    ;
    assert(0 <= (y + row) * w) by (nonlinear_arith)
        requires
            0 <= w,
            0 <= y,
            0 <= row,
    ;
}

/// Draws `digit` in a 3x5 pixel font into the RGBA buffer `buf` (rows of `w`
/// pixels) with its top-left corner at (`x`, `y`). Pixels that fall outside
/// the buffer are skipped.
pub fn draw_digit(buf: &mut Vec<u8>, x: usize, y: usize, w: usize, digit: u8, color: (u8, u8, u8))
    requires
        digit <= 9,
        digit_offsets_fit(x as int, y as int, w as int),
        digit_fits(x as int, y as int, w as int, digit as int, old(buf)@.len() as int),
    ensures
        final(buf)@ == with_digit(old(buf)@, x as int, y as int, w as int, digit as int, color),
{
    let len = buf.len();
    let ghost start = buf@;
    let mut t: usize = 0;
    while t < 15
        invariant
            buf@.len() == len,
            start.len() == len,
            t <= 15,
            digit <= 9,
            digit_offsets_fit(x as int, y as int, w as int),
            digit_fits(x as int, y as int, w as int, digit as int, len as int),
            forall|k: int|
                0 <= k < len ==> #[trigger] buf@[k] == (if painted_upto(
                    x as int,
                    y as int,
                    w as int,
                    digit as int,
                    len as int,
                    k / 4,
                    t as int,
                ) {
                    color_byte(color, k)
                } else {
                    start[k]
                }),
        decreases 15 - t,
    {
        let row = t / 3;
        let col = t % 3;
        let bits = glyph_row(digit, row);
        let lit = if col == 0 {
            (bits / 4) % 2 == 1
        } else if col == 1 {
            (bits / 2) % 2 == 1
        } else {
            bits % 2 == 1
        };
        assert(lit == glyph_lit(digit as int, t as int / 3, t as int % 3));
        let ghost before = buf@;
        if lit {
            proof {
                lemma_cell_pixel_bound(x as int, y as int, w as int, row as int, col as int);
            }
            let yr = y + row;
            assert(yr * w <= usize::MAX);
            let pixel = yr * w + (x + col);
            let idx = pixel * 4;
            if idx + 2 < buf.len() {
                assert(idx + 3 != len);
                buf.set(idx, color.0);
                buf.set(idx + 1, color.1);
                buf.set(idx + 2, color.2);
                buf.set(idx + 3, 255);
            }
        }
        assert forall|k: int| 0 <= k < len implies #[trigger] buf@[k] == (if painted_upto(
            x as int,
            y as int,
            w as int,
            digit as int,
            len as int,
            k / 4,
            t + 1,
        ) {
            color_byte(color, k)
        } else {
            start[k]
        }) by {
            assert(painted_upto(x as int, y as int, w as int, digit as int, len as int, k / 4, t + 1)
                == (painted_upto(x as int, y as int, w as int, digit as int, len as int, k / 4, t as int)
                || cell_hits(x as int, y as int, w as int, digit as int, len as int, k / 4, t as int)));
            assert(before[k] == (if painted_upto(x as int, y as int, w as int, digit as int, len as int, k / 4, t as int) {
                color_byte(color, k)
            } else {
                start[k]
            }));
        }
        t = t + 1;
    }
    assert(buf@ =~= with_digit(start, x as int, y as int, w as int, digit as int, color));
}

/// Drawing a digit keeps the buffer's length, writes only whole pixels that
/// lie inside it, and drawing the same digit again changes nothing more.
pub proof fn law_digit_drawing(buf: Seq<u8>, x: int, y: int, w: int, digit: int, color: (u8, u8, u8))
    ensures
        with_digit(buf, x, y, w, digit, color).len() == buf.len(),
        forall|p: int| #[trigger] painted(x, y, w, digit, buf.len() as int, p) ==> 4 * p + 2 < buf.len(),
        with_digit(with_digit(buf, x, y, w, digit, color), x, y, w, digit, color) == with_digit(buf, x, y, w, digit, color),
{
    assert forall|p: int| #[trigger] painted(x, y, w, digit, buf.len() as int, p) implies 4 * p + 2 < buf.len() by {
        lemma_painted_inside(x, y, w, digit, buf.len() as int, p, 15);
    }
    let once = with_digit(buf, x, y, w, digit, color);
    assert(with_digit(once, x, y, w, digit, color) =~= once);
}

proof fn lemma_painted_inside(x: int, y: int, w: int, digit: int, len: int, p: int, t: int)
    requires
        painted_upto(x, y, w, digit, len, p, t),
    ensures
        4 * p + 2 < len,
    decreases t,
{
    if t > 0 && painted_upto(x, y, w, digit, len, p, t - 1) {
        lemma_painted_inside(x, y, w, digit, len, p, t - 1);
    }
}

/// Whether `draw_digit` can draw `digit` at (`x`, `y`) in a buffer of `len`
/// bytes with rows of `w` pixels.
pub fn can_draw_digit(len: usize, x: usize, y: usize, w: usize, digit: u8) -> (r: bool)
    ensures
        r == (digit <= 9 && digit_offsets_fit(x as int, y as int, w as int) && digit_fits(
            x as int,
            y as int,
            w as int,
            digit as int,
            len as int,
        )),
{
    if digit > 9 {
        return false;
    }
    let y4 = match y.checked_add(4) {
        Some(v) => v,
        None => return false,
    };
    let bound = match y4.checked_mul(w) {
        Some(a) => match a.checked_add(x) {
            Some(b) => match b.checked_add(2) {
                Some(c) => match c.checked_mul(4) {
                    Some(d) => d.checked_add(2),
                    None => None,
                },
                None => None,
            },
            None => None,
        },
        None => None,
    };
    if bound.is_none() {
        return false;
    }
    let mut t: usize = 0;
    while t < 15
        invariant
            t <= 15,
            digit <= 9,
            digit_offsets_fit(x as int, y as int, w as int),
            forall|j: int|
                0 <= j < t && #[trigger] glyph_lit(digit as int, j / 3, j % 3) ==> cell_pixel(
                    x as int,
                    y as int,
                    w as int,
                    j / 3,
                    j % 3,
                ) * 4 + 3 != len,
        decreases 15 - t,
    {
        let row = t / 3;
        let col = t % 3;
        let bits = glyph_row(digit, row);
        let lit = if col == 0 {
            (bits / 4) % 2 == 1
        } else if col == 1 {
            (bits / 2) % 2 == 1
        } else {
            bits % 2 == 1
        };
        assert(lit == glyph_lit(digit as int, t as int / 3, t as int % 3));
        if lit {
            proof {
                lemma_cell_pixel_bound(x as int, y as int, w as int, row as int, col as int);
            }
            let yr = y + row;
            let pixel = yr * w + (x + col);
            if pixel * 4 + 3 == len {
                return false;
            }
        }
        t = t + 1;
    }
    true
}

/// Whether `draw_progress_number` can draw `progress` in a `w` x `h` image
/// of `len` bytes.
pub fn can_draw_progress_number(len: usize, w: usize, h: usize, progress: i32) -> (r: bool)
    ensures
        r == progress_number_fits(len as int, w as int, h as int, progress as int),
{
    let prog: i32 = if progress < 0 {
        0
    } else if progress > 100 {
        100
    } else {
        progress
    };
    let digits: Vec<u8> = if prog >= 100 {
        vec![1, 0, 0]
    } else if prog >= 10 {
        vec![(prog / 10) as u8, (prog % 10) as u8]
    } else {
        vec![prog as u8]
    };
    let ghost ds = progress_digits(progress as int);
    assert(digits@ =~= ds);
    let n = digits.len();
    let total_w = n * 3 + (n - 1);
    if w < total_w || h < 5 {
        return false;
    }
    let start_x = (w - total_w) / 2;
    let start_y = (h - 5) / 2;
    let mut i: usize = 0;
    while i < n
        invariant
            ds == progress_digits(progress as int),
            digits@ == ds,
            n == ds.len(),
            1 <= n <= 3,
            i <= n,
            start_x == number_left(w as int, progress as int),
            start_y == number_top(h as int),
            w >= number_width(n as int),
            h >= 5,
            start_x <= usize::MAX / 2,
            forall|j: int|
                0 <= j < i ==> {
                    &&& digit_offsets_fit(start_x + j * 4, start_y as int, w as int)
                    &&& digit_fits(start_x + j * 4, start_y as int, w as int, #[trigger] ds[j] as int, len as int)
                },
        decreases n - i,
    {
        let x = start_x + i * 4;
        if !can_draw_digit(len, x, start_y, w, digits[i]) {
            return false;
        }
        i = i + 1;
    }
    true
}

/// The progress held to 0..=100.
pub open spec fn clamp_percent(progress: int) -> int {
    if progress < 0 {
        0
    } else if progress > 100 {
        100
    } else {
        progress
    }
}

/// The decimal digits of the progress held to 0..=100.
pub open spec fn progress_digits(progress: int) -> Seq<u8> {
    let p = clamp_percent(progress);
    if p >= 100 {
        seq![1u8, 0u8, 0u8]
    } else if p >= 10 {
        seq![(p / 10) as u8, (p % 10) as u8]
    } else {
        seq![p as u8]
    }
}

/// The width in pixels of `n` digits one pixel apart.
pub open spec fn number_width(n: int) -> int {
    n * 3 + (n - 1)
}

/// The left edge of the number, centred in a row of `w` pixels.
pub open spec fn number_left(w: int, progress: int) -> int {
    (w - number_width(progress_digits(progress).len() as int)) / 2
}

/// The top edge of the number, centred in `h` rows.
pub open spec fn number_top(h: int) -> int {
    (h - 5) / 2
}

/// The buffer with the first `i` of `digits` drawn from (`x`, `y`), four
/// pixels apart.
pub open spec fn digits_drawn(buf: Seq<u8>, digits: Seq<u8>, i: int, x: int, y: int, w: int, color: (u8, u8, u8)) -> Seq<u8>
    decreases i,
{
    if i <= 0 {
        buf
    } else {
        with_digit(digits_drawn(buf, digits, i - 1, x, y, w, color), x + (i - 1) * 4, y, w, digits[i - 1] as int, color)
    }
}

/// The buffer with the progress number drawn, centred.
pub open spec fn with_progress_number(buf: Seq<u8>, w: int, h: int, progress: int, color: (u8, u8, u8)) -> Seq<u8> {
    let ds = progress_digits(progress);
    digits_drawn(buf, ds, ds.len() as int, number_left(w, progress), number_top(h), w, color)
}

/// The number fits the image and every digit can be drawn.
pub open spec fn progress_number_fits(len: int, w: int, h: int, progress: int) -> bool {
    let ds = progress_digits(progress);
    &&& w >= number_width(ds.len() as int)
    &&& h >= 5
    &&& forall|i: int|
        0 <= i < ds.len() ==> {
            &&& digit_offsets_fit(number_left(w, progress) + i * 4, number_top(h), w)
            &&& digit_fits(number_left(w, progress) + i * 4, number_top(h), w, #[trigger] ds[i] as int, len)
        }
}

/// Draws the progress (held to 0..=100) in decimal at the centre of the `w` x `h` RGBA image `buf`.
pub fn draw_progress_number(buf: &mut Vec<u8>, w: usize, h: usize, progress: i32, color: (u8, u8, u8))
    requires
        progress_number_fits(old(buf)@.len() as int, w as int, h as int, progress as int),
    ensures
        final(buf)@ == with_progress_number(old(buf)@, w as int, h as int, progress as int, color),
{
    let prog: i32 = if progress < 0 {
        0
    } else if progress > 100 {
        100
    } else {
        progress
    };
    let digits: Vec<u8> = if prog >= 100 {
        vec![1, 0, 0]
    } else if prog >= 10 {
        vec![(prog / 10) as u8, (prog % 10) as u8]
    } else {
        vec![prog as u8]
    };
    let ghost ds = progress_digits(progress as int);
    assert(digits@ =~= ds);
    let digit_w: usize = 3;
    let digit_h: usize = 5;
    let spacing: usize = 1;
    let n = digits.len();
    let total_w = n * digit_w + (n - 1) * spacing;
    let start_x = (w - total_w) / 2;
    let start_y = (h - digit_h) / 2;
    let ghost start = buf@;
    let mut i: usize = 0;
    while i < n
        invariant
            ds == progress_digits(progress as int),
            digit_w == 3,
            spacing == 1,
            n == ds.len(),
            1 <= n <= 3,
            digits@ == ds,
            i <= n,
            start_x == number_left(w as int, progress as int),
            start_y == number_top(h as int),
            buf@.len() == start.len(),
            buf@ == digits_drawn(start, ds, i as int, start_x as int, start_y as int, w as int, color),
            progress_number_fits(start.len() as int, w as int, h as int, progress as int),
            forall|j: int| 0 <= j < n ==> #[trigger] ds[j] <= 9,
        decreases n - i,
    {
        let ghost x = start_x + i * 4;
        let ghost d = ds[i as int];
        assert(digit_offsets_fit(x, start_y as int, w as int));
        assert(digit_fits(x, start_y as int, w as int, ds[i as int] as int, start.len() as int));
        assert(0 <= (start_y + 4) * w) by (nonlinear_arith);
        draw_digit(buf, start_x + i * (digit_w + spacing), start_y, w, digits[i], color);
        i = i + 1;
    }
}

/// The number that decimal digits spell, most significant first.
pub open spec fn digits_number(ds: Seq<u8>) -> int
    decreases ds.len(),
{
    if ds.len() == 0 {
        0
    } else {
        digits_number(ds.drop_last()) * 10 + ds.last()
    }
}

/// Drawing the progress number. Any progress draws exactly what that
/// progress held to 0..=100 draws: its decimal digits, one to three of them
/// with no leading zero, centred, four pixels apart, from the left edge
/// `(w - (4n - 1)) / 2` and the top edge `(h - 5) / 2`. In an image at least
/// 11 pixels wide and 5 high whose buffer holds whole RGBA pixels, with every
/// pixel offset within `usize`, it can always be drawn.
pub proof fn law_progress_number(buf: Seq<u8>, w: int, h: int, progress: int, color: (u8, u8, u8))
    requires
        w >= 11,
        h >= 5,
        buf.len() % 4 == 0,
        (number_top(h) + 5) * w * 4 <= usize::MAX,
    ensures
        with_progress_number(buf, w, h, progress, color) == with_progress_number(
            buf,
            w,
            h,
            clamp_percent(progress),
            color,
        ),
        progress_number_fits(buf.len() as int, w, h, progress),
        progress_number_fits(buf.len() as int, w, h, clamp_percent(progress)),
        ({
            let ds = progress_digits(progress);
            &&& 1 <= ds.len() <= 3
            &&& digits_number(ds) == clamp_percent(progress)
            &&& (forall|i: int| 0 <= i < ds.len() ==> #[trigger] ds[i] <= 9)
            &&& (ds.len() > 1 ==> ds[0] != 0)
            &&& number_left(w, progress) == (w - (4 * ds.len() - 1)) / 2
            &&& number_top(h) == (h - 5) / 2
        }),
{
    let c = clamp_percent(progress);
    assert(clamp_percent(c) == c);
    assert(progress_digits(c) == progress_digits(progress));
    let ds = progress_digits(progress);
    reveal_with_fuel(digits_number, 4);
    if c >= 100 {
        assert(ds.drop_last() =~= seq![1u8, 0u8]);
        assert(ds.drop_last().drop_last() =~= seq![1u8]);
        assert(ds.drop_last().drop_last().drop_last() =~= Seq::<u8>::empty());
    } else if c >= 10 {
        assert(ds.drop_last() =~= seq![(c / 10) as u8]);
        assert(ds.drop_last().drop_last() =~= Seq::<u8>::empty());
    } else {
        assert(ds.drop_last() =~= Seq::<u8>::empty());
    }
    lemma_progress_number_fits(buf.len() as int, w, h, progress);
}

/// In an image at least 11 pixels wide and 5 high, with a buffer of whole
/// pixels and every pixel offset within `usize`, every digit of the progress
/// number can be drawn.
proof fn lemma_progress_number_fits(len: int, w: int, h: int, progress: int)
    requires
        w >= 11,
        h >= 5,
        len % 4 == 0,
        (number_top(h) + 5) * w * 4 <= usize::MAX,
    ensures
        progress_number_fits(len, w, h, progress),
{
    let ds = progress_digits(progress);
    let n = ds.len() as int;
    let y = number_top(h);
    let left = number_left(w, progress);
    assert(1 <= n <= 3);
    assert(w >= number_width(n));
    assert(0 <= left && left + 4 * n - 2 <= w);
    assert((y + 4) * w + w == (y + 5) * w) by (nonlinear_arith);
    assert(0 <= (y + 4) * w) by (nonlinear_arith)
        requires
            y >= 0,
            w >= 0,
    ;
    assert(y + 5 <= (y + 5) * w * 4) by (nonlinear_arith)
        requires
            y >= 0,
            w >= 11,
    ;
    assert forall|i: int| 0 <= i < ds.len() implies {
        &&& digit_offsets_fit(left + i * 4, y, w)
        &&& digit_fits(left + i * 4, y, w, #[trigger] ds[i] as int, len)
    } by {
        let x = left + i * 4;
        assert(x + 2 <= w - 1);
        assert(digit_offsets_fit(x, y, w));
        assert forall|t: int| 0 <= t < 15 && #[trigger] glyph_lit(ds[i] as int, t / 3, t % 3) implies cell_pixel(
            x,
            y,
            w,
            t / 3,
            t % 3,
        ) * 4 + 3 != len by {
            let q = cell_pixel(x, y, w, t / 3, t % 3);
            assert((q * 4 + 3) % 4 == 3);
        }
    }
}

// ── Colour and tooltip ───────────────────────────────────────────────────────

/// The printer states the tray tells apart.
#[derive(Debug, Clone, Copy, PartialEq, Eq)]
pub enum TrayStatus {
    Printing,
    Paused,
    Finished,
    Idle,
    Failed,
    Unknown,
}

/// The tray status of an upper-cased G-code state.
pub open spec fn status_of(upper: Seq<char>) -> TrayStatus {
    if upper == "RUNNING"@ || upper == "PRINTING"@ {
        TrayStatus::Printing
    } else if upper == "PAUSE"@ || upper == "PAUSED"@ {
        TrayStatus::Paused
    } else if upper == "FINISH"@ || upper == "COMPLETED"@ || upper == "SUCCESS"@ {
        TrayStatus::Finished
    } else if upper == "IDLE"@ || upper == "PREPARE"@ {
        TrayStatus::Idle
    } else if upper == "FAIL"@ || upper == "ERROR"@ {
        TrayStatus::Failed
    } else {
        TrayStatus::Unknown
    }
}

/// The literals of the G-code states, as far as telling them apart needs.
proof fn lemma_state_names()
    ensures
        "RUNNING"@ =~= seq!['R', 'U', 'N', 'N', 'I', 'N', 'G'],
        "PRINTING"@ =~= seq!['P', 'R', 'I', 'N', 'T', 'I', 'N', 'G'],
        "PAUSE"@ =~= seq!['P', 'A', 'U', 'S', 'E'],
        "PAUSED"@ =~= seq!['P', 'A', 'U', 'S', 'E', 'D'],
        "FINISH"@ =~= seq!['F', 'I', 'N', 'I', 'S', 'H'],
        "COMPLETED"@ =~= seq!['C', 'O', 'M', 'P', 'L', 'E', 'T', 'E', 'D'],
        "SUCCESS"@ =~= seq!['S', 'U', 'C', 'C', 'E', 'S', 'S'],
        "IDLE"@ =~= seq!['I', 'D', 'L', 'E'],
        "PREPARE"@ =~= seq!['P', 'R', 'E', 'P', 'A', 'R', 'E'],
        "FAIL"@ =~= seq!['F', 'A', 'I', 'L'],
        "ERROR"@ =~= seq!['E', 'R', 'R', 'O', 'R'],
{
    reveal_strlit("RUNNING");
    reveal_strlit("PRINTING");
    reveal_strlit("PAUSE");
    reveal_strlit("PAUSED");
    reveal_strlit("FINISH");
    reveal_strlit("COMPLETED");
    reveal_strlit("SUCCESS");
    reveal_strlit("IDLE");
    reveal_strlit("PREPARE");
    reveal_strlit("FAIL");
    reveal_strlit("ERROR");
}

/// The tray tells the upper-cased states apart in classes: `RUNNING` and
/// `PRINTING` are printing, `PAUSE` and `PAUSED` paused, `FINISH`,
/// `COMPLETED` and `SUCCESS` finished, `IDLE` and `PREPARE` idle, only `FAIL`
/// and `ERROR` failed, anything else unknown. Each class has its tooltip:
/// `⏸ 待机` for idle, `❌ 错误` for failed, `⏸ 已暂停` for paused, `✅ 已完成`
/// for finished, `Bambu Monitor` for unknown; printing shows the percent.
/// The icon is amber while printing, orange when paused, teal when finished,
/// red when idle or failed, grey otherwise.
pub proof fn law_tray_status_classes(upper: Seq<char>, percent: i32)
    ensures
        (status_of(upper) == TrayStatus::Printing) <==> (upper == "RUNNING"@ || upper == "PRINTING"@),
        (status_of(upper) == TrayStatus::Paused) <==> (upper == "PAUSE"@ || upper == "PAUSED"@),
        (status_of(upper) == TrayStatus::Finished) <==> (upper == "FINISH"@ || upper == "COMPLETED"@ || upper
            == "SUCCESS"@),
        (status_of(upper) == TrayStatus::Idle) <==> (upper == "IDLE"@ || upper == "PREPARE"@),
        (status_of(upper) == TrayStatus::Failed) <==> (upper == "FAIL"@ || upper == "ERROR"@),
        tooltip_of(TrayStatus::Idle, percent) == "⏸ 待机"@,
        tooltip_of(TrayStatus::Failed, percent) == "❌ 错误"@,
        tooltip_of(TrayStatus::Paused, percent) == "⏸ 已暂停"@,
        tooltip_of(TrayStatus::Finished, percent) == "✅ 已完成"@,
        tooltip_of(TrayStatus::Unknown, percent) == "Bambu Monitor"@,
        tooltip_of(TrayStatus::Printing, percent) == "🖨 打印中 "@ + signed_decimal(percent as int) + "%"@,
        color_of(TrayStatus::Printing) == (0xFFu8, 0xB0u8, 0x00u8),
        color_of(TrayStatus::Paused) == (0xFFu8, 0x8Cu8, 0x00u8),
        color_of(TrayStatus::Finished) == (0x00u8, 0xD4u8, 0xAAu8),
        color_of(TrayStatus::Idle) == (0xFFu8, 0x45u8, 0x45u8),
        color_of(TrayStatus::Failed) == (0xFFu8, 0x45u8, 0x45u8),
        color_of(TrayStatus::Unknown) == (0x88u8, 0x88u8, 0x88u8),
{
    lemma_state_names();
}

/// The tray status of an upper-cased G-code state.
pub fn tray_status(upper: &str) -> (r: TrayStatus)
    ensures
        r == status_of(upper@),
{
    if str_eq(upper, "RUNNING") || str_eq(upper, "PRINTING") {
        TrayStatus::Printing
    } else if str_eq(upper, "PAUSE") || str_eq(upper, "PAUSED") {
        TrayStatus::Paused
    } else if str_eq(upper, "FINISH") || str_eq(upper, "COMPLETED") || str_eq(upper, "SUCCESS") {
        TrayStatus::Finished
    } else if str_eq(upper, "IDLE") || str_eq(upper, "PREPARE") {
        TrayStatus::Idle
    } else if str_eq(upper, "FAIL") || str_eq(upper, "ERROR") {
        TrayStatus::Failed
    } else {
        TrayStatus::Unknown
    }
}

/// The icon colour of a status: amber while printing, orange when paused,
/// teal when finished, red on an error and when idle, grey otherwise.
pub open spec fn color_of(status: TrayStatus) -> (u8, u8, u8) {
    match status {
        TrayStatus::Printing => (0xFFu8, 0xB0u8, 0x00u8),
        TrayStatus::Paused => (0xFFu8, 0x8Cu8, 0x00u8),
        TrayStatus::Finished => (0x00u8, 0xD4u8, 0xAAu8),
        TrayStatus::Idle => (0xFFu8, 0x45u8, 0x45u8),
        TrayStatus::Failed => (0xFFu8, 0x45u8, 0x45u8),
        TrayStatus::Unknown => (0x88u8, 0x88u8, 0x88u8),
    }
}

/// The tooltip of a status; while printing it gives the whole percent.
pub open spec fn tooltip_of(status: TrayStatus, percent: i32) -> Seq<char> {
    match status {
        TrayStatus::Printing => "🖨 打印中 "@ + signed_decimal(percent as int) + "%"@,
        TrayStatus::Paused => "⏸ 已暂停"@,
        TrayStatus::Finished => "✅ 已完成"@,
        TrayStatus::Idle => "⏸ 待机"@,
        TrayStatus::Failed => "❌ 错误"@,
        TrayStatus::Unknown => "Bambu Monitor"@,
    }
}

/// The icon colour of a status.
pub fn status_color(status: TrayStatus) -> (r: (u8, u8, u8))
    ensures
        r == color_of(status),
{
    match status {
        TrayStatus::Printing => (0xFF, 0xB0, 0x00),
        TrayStatus::Paused => (0xFF, 0x8C, 0x00),
        TrayStatus::Finished => (0x00, 0xD4, 0xAA),
        TrayStatus::Idle => (0xFF, 0x45, 0x45),
        TrayStatus::Failed => (0xFF, 0x45, 0x45),
        TrayStatus::Unknown => (0x88, 0x88, 0x88),
    }
}

/// The tooltip of a status.
pub fn status_tooltip(status: TrayStatus, percent: i32) -> (r: String)
    ensures
        r@ == tooltip_of(status, percent),
{
    match status {
        TrayStatus::Printing => {
            let mut t = owned("🖨 打印中 ");
            push_signed_decimal(&mut t, percent as i64);
            t.append("%");
            t
        },
        TrayStatus::Paused => owned("⏸ 已暂停"),
        TrayStatus::Finished => owned("✅ 已完成"),
        TrayStatus::Idle => owned("⏸ 待机"),
        TrayStatus::Failed => owned("❌ 错误"),
        TrayStatus::Unknown => owned("Bambu Monitor"),
    }
}

/// The icon colour and tooltip for a G-code state (compared in upper case)
/// and a whole percentage of progress.
pub fn state_icon(state: &str, percent: i32) -> (r: ((u8, u8, u8), String))
    ensures
        r.0 == color_of(status_of(uppercase(state@))),
        r.1@ == tooltip_of(status_of(uppercase(state@)), percent),
{
    let upper = to_uppercase(state);
    let status = tray_status(upper.as_str());
    (status_color(status), status_tooltip(status, percent))
}

// ── Floating window ──────────────────────────────────────────────────────────

/// What happens to the floating progress window.
#[derive(Debug, Clone, Copy, PartialEq, Eq)]
pub enum WindowAction {
    /// Show it.
    Show,
    /// Hide it after a few seconds.
    HideSoon,
    /// Leave it as it is.
    Keep,
}

/// While printing or paused with progress in 0..100 the window shows; on
/// completion it hides soon after; otherwise it is left as it is.
pub open spec fn window_action_of(upper: Seq<char>, whole_percent: int) -> WindowAction {
    let active = upper == "RUNNING"@ || upper == "PRINTING"@ || upper == "PAUSE"@ || upper == "PAUSED"@;
    if active && 0 <= whole_percent < 100 {
        WindowAction::Show
    } else if upper == "FINISH"@ || upper == "COMPLETED"@ {
        WindowAction::HideSoon
    } else {
        WindowAction::Keep
    }
}

/// The floating window shows for every upper-cased state in which a print
/// is running or paused (`RUNNING`, `PRINTING`, `PAUSE`, `PAUSED`) while the
/// progress is in 0..100; it hides soon after `FINISH` or `COMPLETED`; for
/// anything else it is left as it is.
pub proof fn law_window_action(upper: Seq<char>, whole_percent: int)
    ensures
        (window_action_of(upper, whole_percent) == WindowAction::Show) <==> ((upper == "RUNNING"@ || upper
            == "PRINTING"@ || upper == "PAUSE"@ || upper == "PAUSED"@) && 0 <= whole_percent < 100),
        (window_action_of(upper, whole_percent) == WindowAction::HideSoon) <==> (upper == "FINISH"@ || upper
            == "COMPLETED"@),
{
    lemma_state_names();
}

/// What happens to the floating window for an upper-cased G-code state and
/// the progress rounded down (negative where the progress is not a number).
pub fn window_action(upper: &str, whole_percent: i64) -> (r: WindowAction)
    ensures
        r == window_action_of(upper@, whole_percent as int),
{
    let active = str_eq(upper, "RUNNING") || str_eq(upper, "PRINTING") || str_eq(upper, "PAUSE")
        || str_eq(upper, "PAUSED");
    if active && 0 <= whole_percent && whole_percent < 100 {
        WindowAction::Show
    } else if str_eq(upper, "FINISH") || str_eq(upper, "COMPLETED") {
        WindowAction::HideSoon
    } else {
        WindowAction::Keep
    }
}

/// What happens to the floating window for a G-code state (compared in upper
/// case).
pub fn floating_window_action(state: &str, whole_percent: i64) -> (r: WindowAction)
    ensures
        r == window_action_of(uppercase(state@), whole_percent as int),
{
    let upper = to_uppercase(state);
    window_action(upper.as_str(), whole_percent)
}

/// The tray is redrawn when the state changes or the whole percentage moves.
pub fn tray_refresh_needed(last_state: &str, last_percent: i32, state: &str, percent: i32) -> (r: bool)
    ensures
        r == (state@ != last_state@ || (percent - last_percent >= 1 || last_percent - percent >= 1)),
{
    !str_eq(state, last_state) || percent != last_percent
}

// ── Completion ───────────────────────────────────────────────────────────────

/// One step of a completion watch. `was_running` says whether a print was
/// running before; `running` and `finished` say whether the state now seen is
/// a running or a finished one. The result: whether a print is running
/// after this state, and whether a completion is announced (a finished state
/// seen while a print was running).
pub open spec fn watch_step(was_running: bool, running: bool, finished: bool) -> (bool, bool) {
    let announce = was_running && finished;
    (if running { true } else if announce { false } else { was_running }, announce)
}

/// An upper-cased state in which a print is running.
pub open spec fn is_running_upper(upper: Seq<char>) -> bool {
    upper == "RUNNING"@ || upper == "PRINTING"@
}

/// An upper-cased state in which a print has finished.
pub open spec fn is_finished_upper(upper: Seq<char>) -> bool {
    upper == "FINISH"@ || upper == "COMPLETED"@ || upper == "SUCCESS"@
}

/// After seeing the upper-cased state `upper`: whether a print is running,
/// and whether a completion is to be announced (a finished state seen while
/// a print was running).
pub open spec fn completion_of(was_running: bool, upper: Seq<char>) -> (bool, bool) {
    watch_step(was_running, is_running_upper(upper), is_finished_upper(upper))
}

/// Whether a print is running after the first `n` steps of a watch that
/// starts with none running; `flags[k]` says whether the `k`-th state seen
/// is a running one and whether it is a finished one.
pub open spec fn running_after(flags: Seq<(bool, bool)>, n: int) -> bool
    decreases n,
{
    if n <= 0 {
        false
    } else {
        watch_step(running_after(flags, n - 1), flags[n - 1].0, flags[n - 1].1).0
    }
}

/// Whether the `i`-th step of that watch announces a completion.
pub open spec fn announced_at(flags: Seq<(bool, bool)>, i: int) -> bool {
    watch_step(running_after(flags, i), flags[i].0, flags[i].1).1
}

/// The `k`-th state seen is a running one and no step after it and before
/// step `i` announced a completion.
pub open spec fn run_unanswered(flags: Seq<(bool, bool)>, k: int, i: int) -> bool {
    &&& flags[k].0
    &&& forall|j: int| k < j < i ==> !announced_at(flags, j)
}

/// A print is running after `i` steps exactly when some earlier state was a
/// running one and no completion was announced since.
proof fn lemma_running_after(flags: Seq<(bool, bool)>, i: int)
    requires
        0 <= i <= flags.len(),
    ensures
        running_after(flags, i) <==> exists|k: int| 0 <= k < i && #[trigger] run_unanswered(flags, k, i),
    decreases i,
{
    if i > 0 {
        let m = i - 1;
        lemma_running_after(flags, m);
        if flags[m].0 {
            assert(run_unanswered(flags, m, i));
        } else if announced_at(flags, m) {
            assert forall|k: int| 0 <= k < i implies !#[trigger] run_unanswered(flags, k, i) by {
                if k < m {
                    assert(k < m < i && announced_at(flags, m));
                }
            }
        } else {
            if running_after(flags, m) {
                let k = choose|k: int| 0 <= k < m && #[trigger] run_unanswered(flags, k, m);
                assert(run_unanswered(flags, k, i));
            }
            assert forall|k: int| 0 <= k < i && #[trigger] run_unanswered(flags, k, i) implies running_after(flags, m) by {
                assert(k != m);
                assert(run_unanswered(flags, k, m));
            }
        }
    }
}

/// A step announces a completion exactly when its state is a finished one,
/// some earlier state was a running one, and no completion was announced
/// between the two.
proof fn lemma_announced_at(flags: Seq<(bool, bool)>, i: int)
    requires
        0 <= i < flags.len(),
    ensures
        announced_at(flags, i) <==> flags[i].1 && exists|k: int| 0 <= k < i && #[trigger] run_unanswered(flags, k, i),
{
    lemma_running_after(flags, i);
}

/// What the tray watch sees of a sequence of reported G-code states: for
/// each, whether its upper-cased form is a running and a finished state.
pub open spec fn tray_flags(states: Seq<Seq<char>>) -> Seq<(bool, bool)> {
    Seq::new(states.len(), |k: int| (is_running_upper(uppercase(states[k])), is_finished_upper(uppercase(states[k]))))
}

/// Over a sequence of status reads, starting with no print running and
/// carrying the watch from read to read as `track_completion` does: read `i`
/// announces a completion exactly when its state is a finished one (in upper
/// case `FINISH`, `COMPLETED` or `SUCCESS`), an earlier read saw a running
/// state (`RUNNING` or `PRINTING`), and no read between the two announced
/// one.
pub proof fn law_completion_over_reads(states: Seq<Seq<char>>, i: int)
    requires
        0 <= i < states.len(),
    ensures
        ({
            let flags = tray_flags(states);
            &&& completion_of(running_after(flags, i), uppercase(states[i])) == (
                running_after(flags, i + 1),
                announced_at(flags, i),
            )
            &&& announced_at(flags, i) <==> is_finished_upper(uppercase(states[i])) && exists|k: int|
                0 <= k < i && #[trigger] run_unanswered(flags, k, i)
            &&& forall|k: int| 0 <= k < i ==> (flags[k].0 <==> is_running_upper(uppercase(#[trigger] states[k])))
        }),
{
    lemma_announced_at(tray_flags(states), i);
}

/// A completion is announced only after a running print was seen, and once:
/// the same finished state seen again announces nothing.
pub proof fn law_completion_once(upper: Seq<char>)
    ensures
        !completion_of(false, upper).1,
        completion_of(true, upper).1 ==> !completion_of(completion_of(true, upper).0, upper).1,
{
    reveal_strlit("FINISH");
    reveal_strlit("COMPLETED");
    reveal_strlit("SUCCESS");
    reveal_strlit("RUNNING");
    reveal_strlit("PRINTING");
    assert("SUCCESS"@[0] == 'S' && "RUNNING"@[0] == 'R');
    assert("SUCCESS"@.len() == 7 && "RUNNING"@.len() == 7 && "PRINTING"@.len() == 8);
    assert("FINISH"@.len() == 6 && "COMPLETED"@.len() == 9);
}

/// One step of the tray's completion watch, over every upper-cased state:
/// a completion is announced exactly when a print was running and the state
/// is `FINISH`, `COMPLETED` or `SUCCESS`; afterwards a print is running
/// exactly when the state is `RUNNING` or `PRINTING`, or a print was running
/// and nothing was announced.
pub proof fn law_completion_step(was_running: bool, upper: Seq<char>)
    ensures
        completion_of(was_running, upper).1 <==> (was_running && (upper == "FINISH"@ || upper == "COMPLETED"@
            || upper == "SUCCESS"@)),
        completion_of(was_running, upper).0 <==> ((upper == "RUNNING"@ || upper == "PRINTING"@) || (was_running
            && !completion_of(was_running, upper).1)),
{
    lemma_state_names();
}

/// The completion watch over an upper-cased state.
pub fn completion_step(was_running: bool, upper: &str) -> (r: (bool, bool))
    ensures
        r == completion_of(was_running, upper@),
{
    let finished = str_eq(upper, "FINISH") || str_eq(upper, "COMPLETED") || str_eq(upper, "SUCCESS");
    let mut running_now = was_running;
    let announce = was_running && finished;
    if announce {
        running_now = false;
    }
    if str_eq(upper, "RUNNING") || str_eq(upper, "PRINTING") {
        running_now = true;
    }
    (running_now, announce)
}

/// The completion watch over a G-code state (compared in upper case).
pub fn track_completion(was_running: bool, state: &str) -> (r: (bool, bool))
    ensures
        r == completion_of(was_running, uppercase(state@)),
{
    let upper = to_uppercase(state);
    completion_step(was_running, upper.as_str())
}

/// The title of the completion event.
pub const COMPLETION_TITLE: &'static str = "打印完成";

/// The body of the completion event for a job.
pub fn completion_message(job: &str) -> (r: String)
    ensures
        r@ == "任务 '"@ + job@ + "' 已完成"@,
{
    let mut m = owned("任务 '");
    m.append(job);
    m.append("' 已完成");
    m
}

// ── Status polling ───────────────────────────────────────────────────────────

/// What the poller reads from `GET /api/status`.
#[derive(Debug)]
pub struct PolledStatus {
    pub state: String,
    pub progress: JsonNumber,
    pub job: String,
}

/// Reads the poller's fields from a status document: the G-code state (empty
/// where missing), the progress (zero where missing) and the job name (`—`
/// where missing).
pub fn read_polled_status(obj: &JsonValue) -> (r: PolledStatus)
    ensures
        r.state@ == str_or(str_of(obj.field("gcode_state"@)), Seq::empty()),
        r.progress == number_or_zero(number_of(obj.field("progress"@))),
        r.job@ == str_or(str_of(obj.field("job_name"@)), "—"@),
{
    proof {
        reveal_strlit("");
    }
    let state = match obj.get("gcode_state") {
        Some(v) => match v.as_str() {
            Some(s) => owned(s),
            None => String::new(),
        },
        None => String::new(),
    };
    let progress = match obj.get("progress") {
        Some(v) => match v.as_number() {
            Some(n) => n,
            None => JsonNumber::PosInt(0),
        },
        None => JsonNumber::PosInt(0),
    };
    let job = match obj.get("job_name") {
        Some(v) => match v.as_str() {
            Some(s) => owned(s),
            None => owned("—"),
        },
        None => owned("—"),
    };
    PolledStatus { state, progress, job }
}

// ── The script-backend variant ───────────────────────────────────────────────

/// The tray status of an upper-cased state as the script-backed monitor
/// tells them apart: it knows fewer finished and idle states.
pub open spec fn backend_status_of(upper: Seq<char>) -> TrayStatus {
    if upper == "RUNNING"@ || upper == "PRINTING"@ {
        TrayStatus::Printing
    } else if upper == "PAUSE"@ || upper == "PAUSED"@ {
        TrayStatus::Paused
    } else if upper == "FINISH"@ || upper == "COMPLETED"@ {
        TrayStatus::Finished
    } else if upper == "IDLE"@ {
        TrayStatus::Idle
    } else if upper == "FAIL"@ || upper == "ERROR"@ {
        TrayStatus::Failed
    } else {
        TrayStatus::Unknown
    }
}

/// The tray status of an upper-cased state, script-backend variant.
pub fn backend_tray_status(upper: &str) -> (r: TrayStatus)
    ensures
        r == backend_status_of(upper@),
{
    if str_eq(upper, "RUNNING") || str_eq(upper, "PRINTING") {
        TrayStatus::Printing
    } else if str_eq(upper, "PAUSE") || str_eq(upper, "PAUSED") {
        TrayStatus::Paused
    } else if str_eq(upper, "FINISH") || str_eq(upper, "COMPLETED") {
        TrayStatus::Finished
    } else if str_eq(upper, "IDLE") {
        TrayStatus::Idle
    } else if str_eq(upper, "FAIL") || str_eq(upper, "ERROR") {
        TrayStatus::Failed
    } else {
        TrayStatus::Unknown
    }
}

/// A reported state in which the script-backed monitor sees a print running.
pub open spec fn is_backend_running(state: Seq<char>) -> bool {
    state == "RUNNING"@ || state == "printing"@
}

/// A reported state in which the script-backed monitor sees a print finished.
pub open spec fn is_backend_finished(state: Seq<char>) -> bool {
    state == "FINISH"@ || state == "COMPLETED"@ || state == "finish"@ || state == "completed"@
}

/// The completion watch of the script-backed monitor, on the state as
/// reported (not upper-cased): finished is `FINISH`, `COMPLETED`, `finish` or
/// `completed`; running is `RUNNING` or `printing`.
pub open spec fn backend_completion_of(was_running: bool, state: Seq<char>) -> (bool, bool) {
    watch_step(was_running, is_backend_running(state), is_backend_finished(state))
}

/// What the script-backed watch sees of a sequence of reported states.
pub open spec fn backend_flags(states: Seq<Seq<char>>) -> Seq<(bool, bool)> {
    Seq::new(states.len(), |k: int| (is_backend_running(states[k]), is_backend_finished(states[k])))
}

/// Over a sequence of replies of the script backend, starting with no print
/// running and carrying the watch from reply to reply as
/// `backend_completion_step` does: reply `i` announces a finished print
/// exactly when its state is `FINISH`, `COMPLETED`, `finish` or `completed`,
/// an earlier reply's state was `RUNNING` or `printing`, and no reply between
/// the two announced one.
pub proof fn law_backend_completion_over_replies(states: Seq<Seq<char>>, i: int)
    requires
        0 <= i < states.len(),
    ensures
        ({
            let flags = backend_flags(states);
            &&& backend_completion_of(running_after(flags, i), states[i]) == (
                running_after(flags, i + 1),
                announced_at(flags, i),
            )
            &&& announced_at(flags, i) <==> is_backend_finished(states[i]) && exists|k: int|
                0 <= k < i && #[trigger] run_unanswered(flags, k, i)
            &&& forall|k: int| 0 <= k < i ==> (flags[k].0 <==> is_backend_running(#[trigger] states[k]))
        }),
{
    lemma_announced_at(backend_flags(states), i);
}

/// One step of the script backend's completion watch, on the state as
/// reported: a finished print is announced exactly when a print was running
/// and the state is `FINISH`, `COMPLETED`, `finish` or `completed`;
/// afterwards a print is running exactly when the state is `RUNNING` or
/// `printing`, or a print was running and nothing was announced.
pub proof fn law_backend_completion_step(was_running: bool, state: Seq<char>)
    ensures
        backend_completion_of(was_running, state).1 <==> (was_running && (state == "FINISH"@ || state
            == "COMPLETED"@ || state == "finish"@ || state == "completed"@)),
        backend_completion_of(was_running, state).0 <==> ((state == "RUNNING"@ || state == "printing"@) || (
        was_running && !backend_completion_of(was_running, state).1)),
{
    lemma_state_names();
    reveal_strlit("finish");
    reveal_strlit("completed");
    reveal_strlit("printing");
    assert("finish"@.len() == 6 && "completed"@.len() == 9 && "printing"@.len() == 8);
    assert("finish"@[0] == 'f' && "completed"@[0] == 'c' && "printing"@[0] == 'p');
}

/// The completion watch, script-backend variant.
pub fn backend_completion_step(was_running: bool, state: &str) -> (r: (bool, bool))
    ensures
        r == backend_completion_of(was_running, state@),
{
    let finished = str_eq(state, "FINISH") || str_eq(state, "COMPLETED") || str_eq(state, "finish")
        || str_eq(state, "completed");
    let mut running_now = was_running;
    let announce = was_running && finished;
    if announce {
        running_now = false;
    }
    if str_eq(state, "RUNNING") || str_eq(state, "printing") {
        running_now = true;
    }
    (running_now, announce)
}

// ── Tray menu ────────────────────────────────────────────────────────────────

/// What a tray-menu entry does.
#[derive(Debug, Clone, Copy, PartialEq, Eq)]
pub enum MenuAction {
    /// Show and focus the main window.
    ShowWindow,
    /// Leave the application.
    Quit,
    /// Nothing.
    Nothing,
}

/// The tray menu has two entries: `show` and `quit`.
pub fn menu_action(id: &str) -> (r: MenuAction)
    ensures
        r == (if id@ == "show"@ {
            MenuAction::ShowWindow
        } else if id@ == "quit"@ {
            MenuAction::Quit
        } else {
            MenuAction::Nothing
        }),
{
    if str_eq(id, "show") {
        MenuAction::ShowWindow
    } else if str_eq(id, "quit") {
        MenuAction::Quit
    } else {
        MenuAction::Nothing
    }
}

/// A left click on the tray icon toggles the main window: a visible window
/// is hidden, a hidden one shown (and focused). The result is whether the
/// window is to be shown.
pub fn main_window_shown_after_click(visible: bool) -> (r: bool)
    ensures
        r == !visible,
{
    !visible
}

// ── Debug information ────────────────────────────────────────────────────────

pub open spec fn bool_text(b: bool) -> Seq<char> {
    if b { "true"@ } else { "false"@ }
}

/// The debug line the front end shows.
pub fn debug_info(http_port: u16, mqtt_connected: bool, app_version: &str, tauri_version: &str) -> (r: String)
    ensures
        r@ == "http_port="@ + decimal(http_port as nat) + " mqtt_connected="@ + bool_text(mqtt_connected)
            + " app_version="@ + app_version@ + " tauri_version="@ + tauri_version@,
{
    let mut s = owned("http_port=");
    push_decimal(&mut s, http_port as u64);
    s.append(" mqtt_connected=");
    if mqtt_connected {
        s.append("true");
    } else {
        s.append("false");
    }
    s.append(" app_version=");
    s.append(app_version);
    s.append(" tauri_version=");
    s.append(tauri_version);
    s
}

} // verus!
