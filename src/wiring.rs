use vstd::prelude::*;
use crate::font::{Rgb, HEIGHT, WIDTH, NUM_PIXELS};

verus! {

/// Position on the strip of logical pixel `(row, col)`. Column `col` is run
/// `col` of the strip; even runs are wired top to bottom, odd runs bottom to
/// top.
pub open spec fn wiring_index(row: int, col: int) -> int {
    if col % 2 == 0 {
        col * HEIGHT as int + row
    } else {
        col * HEIGHT as int + (HEIGHT as int - 1 - row)
    }
}

/// Position on the strip of row-major logical index `pos`.
pub open spec fn physical_of(pos: int) -> int {
    wiring_index(pos / WIDTH as int, pos % WIDTH as int)
}

/// Row-major logical index of the pixel wired at strip position `p`.
pub open spec fn logical_of(p: int) -> int {
    let col = p / HEIGHT as int;
    let offset = p % HEIGHT as int;
    let row = if col % 2 == 0 {
        offset
    } else {
        HEIGHT as int - 1 - offset
    };
    row * WIDTH as int + col
}

/// A row-major frame rearranged into wiring order.
pub open spec fn wired(logical: Seq<Rgb>) -> Seq<Rgb> {
    Seq::new(NUM_PIXELS as nat, |p: int| logical[logical_of(p)])
}

proof fn lemma_physical_then_logical(pos: int)
    requires
        0 <= pos < NUM_PIXELS,
    ensures
        0 <= physical_of(pos) < NUM_PIXELS,
        logical_of(physical_of(pos)) == pos,
{
}

proof fn lemma_logical_then_physical(p: int)
    requires
        0 <= p < NUM_PIXELS,
    ensures
        0 <= logical_of(p) < NUM_PIXELS,
        physical_of(logical_of(p)) == p,
{
}

/// The wiring map is a bijection of the frame's indices: every logical index
/// goes to a strip position in range, no two go to the same one, and every
/// strip position receives a logical index (the one `logical_of` names).
pub proof fn lemma_wiring_bijective()
    ensures
        forall|pos: int| 0 <= pos < NUM_PIXELS ==> 0 <= #[trigger] physical_of(pos) < NUM_PIXELS,
        forall|a: int, b: int|
            0 <= a < NUM_PIXELS && 0 <= b < NUM_PIXELS && #[trigger] physical_of(a)
                == #[trigger] physical_of(b) ==> a == b,
        forall|p: int|
            0 <= p < NUM_PIXELS ==> 0 <= #[trigger] logical_of(p) < NUM_PIXELS && physical_of(
                logical_of(p),
            ) == p,
{
    assert forall|pos: int| 0 <= pos < NUM_PIXELS implies 0 <= #[trigger] physical_of(pos)
        < NUM_PIXELS by {
        lemma_physical_then_logical(pos);
    }
    assert forall|a: int, b: int|
        0 <= a < NUM_PIXELS && 0 <= b < NUM_PIXELS && #[trigger] physical_of(a)
            == #[trigger] physical_of(b) implies a == b by {
        lemma_physical_then_logical(a);
        lemma_physical_then_logical(b);
    }
    assert forall|p: int| 0 <= p < NUM_PIXELS implies 0 <= #[trigger] logical_of(p) < NUM_PIXELS
        && physical_of(logical_of(p)) == p by {
        lemma_logical_then_physical(p);
    }
}

/// Each column is one run of the strip, and within a run the position grows
/// with the row when the column is even and shrinks with it when the column
/// is odd.
pub proof fn lemma_run_order(row1: int, row2: int, col: int)
    requires
        0 <= row1 < row2 < HEIGHT,
        0 <= col < WIDTH,
    ensures
        wiring_index(row1, col) / HEIGHT as int == col,
        wiring_index(row2, col) / HEIGHT as int == col,
        col % 2 == 0 ==> wiring_index(row1, col) < wiring_index(row2, col),
        col % 2 == 1 ==> wiring_index(row1, col) > wiring_index(row2, col),
{
}

/// Rearranges a row-major frame into the strip's serpentine wiring order:
/// logical pixel `(row, col)` goes to position `wiring_index(row, col)`.
pub fn logical_array_to_zig_zag(arr: [Rgb; NUM_PIXELS]) -> (r: [Rgb; NUM_PIXELS])
    ensures
        r@ == wired(arr@),
        forall|row: int, col: int|
            0 <= row < HEIGHT && 0 <= col < WIDTH ==> r@[wiring_index(row, col)]
                == arr@[row * WIDTH as int + col],
{
    let mut output: [Rgb; NUM_PIXELS] = [Rgb::black(); NUM_PIXELS];
    let mut pos: usize = 0;
    while pos < NUM_PIXELS
        invariant
            pos <= NUM_PIXELS,
            forall|j: int| 0 <= j < pos ==> output@[#[trigger] physical_of(j)] == arr@[j],
        decreases NUM_PIXELS - pos,
    {
        let col = pos % WIDTH;
        let row = pos / WIDTH;
        let index = if col % 2 == 0 {
            col * HEIGHT + row
        } else {
            col * HEIGHT + (HEIGHT - 1 - row)
        };
        // Never taken: the largest index reached is the last pixel.
        let index = if index > NUM_PIXELS - 1 {
            NUM_PIXELS - 1
        } else {
            index
        };
        proof {
            lemma_physical_then_logical(pos as int);
            assert(index as int == physical_of(pos as int));
            assert forall|j: int| 0 <= j < pos implies physical_of(j) != index by {
                lemma_physical_then_logical(j);
            }
        }
        output[index] = arr[pos];
        pos = pos + 1;
    }
    proof {
        assert forall|p: int| 0 <= p < NUM_PIXELS implies output@[p] == arr@[logical_of(p)] by {
            lemma_logical_then_physical(p);
        }
        assert(output@ =~= wired(arr@));
        assert forall|row: int, col: int| 0 <= row < HEIGHT && 0 <= col < WIDTH implies output@[wiring_index(row, col)]
            == arr@[row * WIDTH as int + col] by {
            let j = row * WIDTH as int + col;
            assert(j / WIDTH as int == row && j % WIDTH as int == col);
            lemma_physical_then_logical(j);
        }
    }
    output
}

} // verus!
