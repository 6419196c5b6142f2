use vstd::prelude::*;
use vstd::arithmetic::div_mod::{lemma_div_denominator, lemma_div_is_ordered_by_denominator};
use crate::font::{
    Rgb, black, quarter, palette, palette_color, glyph_lit, glyph_pixel, HEIGHT, WIDTH,
    NUM_DIGITS, NUM_PIXELS, CELL_WIDTH,
};

verus! {

/// Ten to the power `k`.
pub open spec fn pow10(k: nat) -> nat
    decreases k,
{
    if k == 0 {
        1
    } else {
        10 * pow10((k - 1) as nat)
    }
}

/// The place value, counted from the right, of digit cell `cell`.
pub open spec fn place(cell: int) -> nat {
    (NUM_DIGITS - 1 - cell) as nat
}

/// The decimal digit of `num` that belongs in digit cell `cell`
/// (cell 7 holds the least significant digit).
pub open spec fn cell_digit(num: int, cell: int) -> int {
    (num / pow10(place(cell)) as int) % 10
}

/// Whether digit cell `cell` shows a digit of `num`: the rightmost cell always
/// does (so zero shows as "0"); any other cell only when `num` has a digit at
/// its place. Digits beyond the leftmost cell are dropped.
pub open spec fn cell_shown(num: int, cell: int) -> bool {
    cell == NUM_DIGITS - 1 || num / pow10(place(cell)) as int != 0
}

/// What digit cell `cell` holds for `num`: its digit, or nothing (blank).
pub open spec fn cell_content(num: int, cell: int) -> Option<u8> {
    if cell_shown(num, cell) {
        Some(cell_digit(num, cell) as u8)
    } else {
        None
    }
}

/// The colour of logical pixel `(row, col)` when `num` is displayed: the
/// cell's palette colour at quarter brightness where the cell's glyph is lit,
/// black elsewhere.
pub open spec fn rendered_pixel(num: int, row: int, col: int) -> Rgb {
    let cell = col / CELL_WIDTH as int;
    if cell_shown(num, cell) && glyph_lit(cell_digit(num, cell), row, col % CELL_WIDTH as int) {
        quarter(palette(cell))
    } else {
        black()
    }
}

/// The whole row-major frame for `num`: pixel `i` is at row `i / WIDTH`,
/// column `i % WIDTH`.
pub open spec fn rendered(num: int) -> Seq<Rgb> {
    Seq::new(NUM_PIXELS as nat, |i: int| rendered_pixel(num, i / WIDTH as int, i % WIDTH as int))
}

proof fn lemma_pow10_positive(k: nat)
    ensures
        pow10(k) >= 1,
    decreases k,
{
    if k > 0 {
        lemma_pow10_positive((k - 1) as nat);
    }
}

proof fn lemma_pow10_monotone(a: nat, b: nat)
    requires
        a <= b,
    ensures
        pow10(a) <= pow10(b),
    decreases b,
{
    if a < b {
        lemma_pow10_monotone(a, (b - 1) as nat);
        lemma_pow10_positive((b - 1) as nat);
    }
}

/// Once `num` has no digit at place `a`, it has none at any higher place.
proof fn lemma_no_higher_digits(num: int, a: nat, b: nat)
    requires
        0 <= num,
        a <= b,
        num / pow10(a) as int == 0,
    ensures
        num / pow10(b) as int == 0,
{
    lemma_pow10_positive(a);
    lemma_pow10_monotone(a, b);
    lemma_div_is_ordered_by_denominator(num, pow10(a) as int, pow10(b) as int);
    assert(num / pow10(b) as int >= 0) by {
        vstd::arithmetic::div_mod::lemma_div_pos_is_pos(num, pow10(b) as int);
    }
}

/// Digits are right-aligned: a cell other than the rightmost shows a digit
/// exactly when `num` has a digit at that cell's place, that is, when `num` is
/// at least ten to the power of the place; shorter numbers leave the leading
/// cells blank.
pub proof fn lemma_cells_right_aligned(num: int, cell: int)
    requires
        0 <= num,
        0 <= cell < NUM_DIGITS,
    ensures
        cell_shown(num, cell) <==> (cell == NUM_DIGITS - 1 || num >= pow10(place(cell))),
        cell_content(num, cell) is None <==> (cell < NUM_DIGITS - 1 && num < pow10(place(cell))),
{
    let p = pow10(place(cell)) as int;
    lemma_pow10_positive(place(cell));
    if num < p {
        assert(num / p == 0) by (nonlinear_arith)
            requires
                0 <= num < p,
        ;
    } else {
        assert(num / p >= 1) by (nonlinear_arith)
            requires
                num >= p,
                p > 0,
        ;
    }
}

/// Splits `num` into the contents of the digit cells, right-aligned: the
/// least significant digit goes to the rightmost cell, which is never blank;
/// cells to the left of the most significant digit stay blank, and digits that
/// do not fit are dropped.
pub fn digit_cells(num: u64) -> (r: [Option<u8>; NUM_DIGITS])
    ensures
        forall|cell: int| 0 <= cell < NUM_DIGITS ==> r@[cell] == cell_content(num as int, cell),
{
    let mut cells: [Option<u8>; NUM_DIGITS] = [None; NUM_DIGITS];
    let mut n: u64 = num;
    let mut index: usize = NUM_DIGITS - 1;
    proof {
        assert(pow10(0) == 1);
        assert(place(NUM_DIGITS - 1) == 0);
        assert(num as int / 1 == num as int);
    }
    loop
        invariant
            index < NUM_DIGITS,
            n as int == num as int / pow10(place(index as int)) as int,
            index == NUM_DIGITS - 1 || n != 0,
            forall|c: int| 0 <= c <= index ==> cells@[c] is None,
            forall|c: int| index < c < NUM_DIGITS ==> cells@[c] == cell_content(num as int, c),
        decreases index,
    {
        let ghost k = place(index as int);
        cells[index] = Some((n % 10) as u8);
        proof {
            lemma_pow10_positive(k);
            lemma_div_denominator(num as int, pow10(k) as int, 10);
            assert(pow10(k + 1) == 10 * pow10(k));
            assert(pow10(k) as int * 10 == pow10(k + 1) as int) by (nonlinear_arith)
                requires
                    pow10(k + 1) == 10 * pow10(k),
            ;
        }
        n = n / 10;
        assert(n as int == num as int / pow10(k + 1) as int);
        if index == 0 || n == 0 {
            proof {
                if index > 0 {
                    assert forall|c: int| 0 <= c < index implies cells@[c] == cell_content(
                        num as int,
                        c,
                    ) by {
                        lemma_no_higher_digits(num as int, k + 1, place(c));
                    }
                }
            }
            return cells;
        }
        index = index - 1;
    }
}

/// The row-major pixel buffer that displays `num`: each shown digit's glyph in
/// its cell, in that cell's palette colour at quarter brightness, on black.
pub fn num_to_pixels(num: u64) -> (r: [Rgb; NUM_PIXELS])
    ensures
        r@ == rendered(num as int),
        forall|row: int, col: int|
            0 <= row < HEIGHT && 0 <= col < WIDTH ==> r@[row * WIDTH as int + col]
                == rendered_pixel(num as int, row, col),
{
    let cells = digit_cells(num);
    let mut values: [Rgb; NUM_PIXELS] = [Rgb::black(); NUM_PIXELS];
    let mut i: usize = 0;
    while i < NUM_PIXELS
        invariant
            i <= NUM_PIXELS,
            forall|c: int| 0 <= c < NUM_DIGITS ==> cells@[c] == cell_content(num as int, c),
            forall|j: int|
                0 <= j < i ==> values@[j] == rendered_pixel(
                    num as int,
                    j / WIDTH as int,
                    j % WIDTH as int,
                ),
        decreases NUM_PIXELS - i,
    {
        let row = i / WIDTH;
        let col = i % WIDTH;
        let cell = col / CELL_WIDTH;
        proof {
            assert(cells@[cell as int] == cell_content(num as int, cell as int));
        }
        let pixel = match cells[cell] {
            Some(d) => {
                if glyph_pixel(d as usize, row, col % CELL_WIDTH) {
                    palette_color(cell).quarter()
                } else {
                    Rgb::black()
                }
            },
            None => Rgb::black(),
        };
        assert(pixel == rendered_pixel(num as int, i as int / WIDTH as int, i as int % WIDTH as int));
        values[i] = pixel;
        i = i + 1;
    }
    assert(values@ =~= rendered(num as int));
    proof {
        assert forall|row: int, col: int| 0 <= row < HEIGHT && 0 <= col < WIDTH implies values@[row
            * WIDTH as int + col] == rendered_pixel(num as int, row, col) by {
            let j = row * WIDTH as int + col;
            assert(j / WIDTH as int == row && j % WIDTH as int == col);
        }
    }
    values
}

} // verus!
