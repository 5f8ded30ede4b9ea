//! The mathematical model of sprite drawing: which pixels a draw flips, what
//! collision it reports, and the laws that follow (drawing the same sprite
//! twice restores the display).
use vstd::prelude::*;

use crate::memory::{pixel_index, xor_bit, SCREEN_HEIGHT, SCREEN_WIDTH};

verus! {

/// Bit `k` of a sprite row byte, counted from the most significant bit
/// (`k == 0` is the leftmost pixel of the row).
pub open spec fn sprite_bit(b: u8, k: int) -> u8 {
    if k == 0 {
        (b / 128) % 2
    } else if k == 1 {
        (b / 64) % 2
    } else if k == 2 {
        (b / 32) % 2
    } else if k == 3 {
        (b / 16) % 2
    } else if k == 4 {
        (b / 8) % 2
    } else if k == 5 {
        (b / 4) % 2
    } else if k == 6 {
        (b / 2) % 2
    } else {
        b % 2
    }
}

/// Extracting bit `k` by shifting, as the executable code does, agrees with
/// `sprite_bit`.
pub proof fn lemma_sprite_bit_shift(b: u8, k: u8)
    requires
        k < 8,
    ensures
        (b >> ((7 - k) as u8)) & 1 == sprite_bit(b, k as int),
{
    assert(k < 8 ==> (b >> ((7 - k) as u8)) & 1 == (if k == 0 {
        (b / 128) % 2
    } else if k == 1 {
        (b / 64) % 2
    } else if k == 2 {
        (b / 32) % 2
    } else if k == 3 {
        (b / 16) % 2
    } else if k == 4 {
        (b / 8) % 2
    } else if k == 5 {
        (b / 4) % 2
    } else if k == 6 {
        (b / 2) % 2
    } else {
        b % 2
    })) by (bit_vector);
}

/// XOR-plots the set bits of row byte `b` onto `d`, columns `k..8` of the row
/// at `(x0, y)`, clipping at the right display edge. Returns the new display
/// and whether any plotted bit turned a set pixel off.
pub open spec fn plot_bits(d: Seq<u8>, b: u8, x0: int, y: int, k: int) -> (Seq<u8>, bool)
    decreases 8 - k,
{
    if k < 0 || k >= 8 || x0 + k >= SCREEN_WIDTH {
        (d, false)
    } else {
        let idx = pixel_index(x0 + k, y);
        let bit = sprite_bit(b, k);
        let d1 = if bit == 1 {
            d.update(idx, xor_bit(d[idx], 1))
        } else {
            d
        };
        let c1 = bit == 1 && d[idx] == 1;
        let rest = plot_bits(d1, b, x0, y, k + 1);
        (rest.0, c1 || rest.1)
    }
}

/// XOR-plots rows `row..n` of the sprite at RAM address `i` onto `d`, with
/// origin `(x0, y0)`, clipping at the bottom display edge. Returns the new
/// display and whether any plotted bit turned a set pixel off.
pub open spec fn plot_rows(
    d: Seq<u8>,
    mem: Seq<u8>,
    i: int,
    x0: int,
    y0: int,
    n: int,
    row: int,
) -> (Seq<u8>, bool)
    decreases n - row,
{
    if row < 0 || row >= n || y0 + row >= SCREEN_HEIGHT {
        (d, false)
    } else {
        let first = plot_bits(d, mem[i + row], x0, y0 + row, 0);
        let rest = plot_rows(first.0, mem, i, x0, y0, n, row + 1);
        (rest.0, first.1 || rest.1)
    }
}

/// Whether pixel `m` is plotted (bit set, inside the display) by columns
/// `k..8` of the row at `(x0, y)` of byte `b`.
pub open spec fn plotted_in_row(b: u8, x0: int, y: int, k: int, m: int) -> bool
    decreases 8 - k,
{
    if k < 0 || k >= 8 || x0 + k >= SCREEN_WIDTH {
        false
    } else {
        (sprite_bit(b, k) == 1 && m == pixel_index(x0 + k, y)) || plotted_in_row(b, x0, y, k + 1, m)
    }
}

/// Whether pixel `m` is plotted by rows `row..n` of the sprite at RAM address
/// `i` with origin `(x0, y0)`.
pub open spec fn sprite_plotted(
    mem: Seq<u8>,
    i: int,
    x0: int,
    y0: int,
    n: int,
    row: int,
    m: int,
) -> bool
    decreases n - row,
{
    if row < 0 || row >= n || y0 + row >= SCREEN_HEIGHT {
        false
    } else {
        plotted_in_row(mem[i + row], x0, y0 + row, 0, m) || sprite_plotted(
            mem,
            i,
            x0,
            y0,
            n,
            row + 1,
            m,
        )
    }
}

/// Whether columns `k..8` of the row at `(x0, y)` of byte `b` plot some pixel
/// that is already set in `d`.
pub open spec fn row_collision(d: Seq<u8>, b: u8, x0: int, y: int, k: int) -> bool
    decreases 8 - k,
{
    if k < 0 || k >= 8 || x0 + k >= SCREEN_WIDTH {
        false
    } else {
        (sprite_bit(b, k) == 1 && d[pixel_index(x0 + k, y)] == 1) || row_collision(
            d,
            b,
            x0,
            y,
            k + 1,
        )
    }
}

/// Whether rows `row..n` of the sprite plot some pixel that is already set in
/// `d`.
pub open spec fn sprite_collision(
    d: Seq<u8>,
    mem: Seq<u8>,
    i: int,
    x0: int,
    y0: int,
    n: int,
    row: int,
) -> bool
    decreases n - row,
{
    if row < 0 || row >= n || y0 + row >= SCREEN_HEIGHT {
        false
    } else {
        row_collision(d, mem[i + row], x0, y0 + row, 0) || sprite_collision(
            d,
            mem,
            i,
            x0,
            y0,
            n,
            row + 1,
        )
    }
}

/// Every pixel plotted by columns `k..` of a row lies in that row's index
/// range.
proof fn lemma_plotted_in_row_bounds(b: u8, x0: int, y: int, k: int, m: int)
    requires
        0 <= x0,
        plotted_in_row(b, x0, y, k, m),
    ensures
        pixel_index(x0 + k, y) <= m < pixel_index(0, y + 1),
    decreases 8 - k,
{
    if !(k < 0 || k >= 8 || x0 + k >= SCREEN_WIDTH) {
        if !(sprite_bit(b, k) == 1 && m == pixel_index(x0 + k, y)) {
            lemma_plotted_in_row_bounds(b, x0, y, k + 1, m);
        }
    }
}

/// Every pixel plotted by rows `row..` of a sprite lies at or beyond the start
/// of the row it belongs to.
proof fn lemma_sprite_plotted_bounds(
    mem: Seq<u8>,
    i: int,
    x0: int,
    y0: int,
    n: int,
    row: int,
    m: int,
)
    requires
        0 <= x0,
        sprite_plotted(mem, i, x0, y0, n, row, m),
    ensures
        pixel_index(0, y0 + row) <= m,
    decreases n - row,
{
    if !(row < 0 || row >= n || y0 + row >= SCREEN_HEIGHT) {
        if plotted_in_row(mem[i + row], x0, y0 + row, 0, m) {
            lemma_plotted_in_row_bounds(mem[i + row], x0, y0 + row, 0, m);
        } else {
            lemma_sprite_plotted_bounds(mem, i, x0, y0, n, row + 1, m);
        }
    }
}

/// A row's collision flag does not depend on pixels outside the row's
/// remaining index range.
proof fn lemma_row_collision_update(d: Seq<u8>, b: u8, x0: int, y: int, k: int, m: int, v: u8)
    requires
        0 <= x0,
        0 <= y,
        0 <= m < d.len(),
        m < pixel_index(x0 + k, y) || m >= pixel_index(0, y + 1),
        pixel_index(0, y + 1) <= d.len(),
    ensures
        row_collision(d.update(m, v), b, x0, y, k) == row_collision(d, b, x0, y, k),
    decreases 8 - k,
{
    if !(k < 0 || k >= 8 || x0 + k >= SCREEN_WIDTH) {
        lemma_row_collision_update(d, b, x0, y, k + 1, m, v);
    }
}

/// Characterizes `plot_bits`: the new display flips exactly the plotted
/// pixels, and the collision flag is exactly `row_collision` on the old
/// display.
proof fn lemma_plot_bits_char(d: Seq<u8>, b: u8, x0: int, y: int, k: int)
    requires
        0 <= x0 < SCREEN_WIDTH,
        0 <= y < SCREEN_HEIGHT,
        d.len() == SCREEN_WIDTH * SCREEN_HEIGHT,
    ensures
        plot_bits(d, b, x0, y, k).0.len() == d.len(),
        forall|m: int|
            0 <= m < d.len() ==> plot_bits(d, b, x0, y, k).0[m] == (if plotted_in_row(
                b,
                x0,
                y,
                k,
                m,
            ) {
                xor_bit(d[m], 1)
            } else {
                d[m]
            }),
        plot_bits(d, b, x0, y, k).1 == row_collision(d, b, x0, y, k),
    decreases 8 - k,
{
    if !(k < 0 || k >= 8 || x0 + k >= SCREEN_WIDTH) {
        let idx = pixel_index(x0 + k, y);
        let bit = sprite_bit(b, k);
        let d1 = if bit == 1 {
            d.update(idx, xor_bit(d[idx], 1))
        } else {
            d
        };
        lemma_plot_bits_char(d1, b, x0, y, k + 1);
        if bit == 1 {
            lemma_row_collision_update(d, b, x0, y, k + 1, idx, xor_bit(d[idx], 1));
        }
        assert forall|m: int| 0 <= m < d.len() implies plot_bits(d, b, x0, y, k).0[m] == (
        if plotted_in_row(b, x0, y, k, m) {
            xor_bit(d[m], 1)
        } else {
            d[m]
        }) by {
            if plotted_in_row(b, x0, y, k + 1, m) {
                lemma_plotted_in_row_bounds(b, x0, y, k + 1, m);
            }
        }
    }
}

/// A sprite's collision flag is unchanged when the display is only modified
/// below the sprite's remaining rows.
proof fn lemma_sprite_collision_agree(
    d: Seq<u8>,
    d2: Seq<u8>,
    mem: Seq<u8>,
    i: int,
    x0: int,
    y0: int,
    n: int,
    row: int,
)
    requires
        0 <= x0 < SCREEN_WIDTH,
        0 <= y0 < SCREEN_HEIGHT,
        d.len() == SCREEN_WIDTH * SCREEN_HEIGHT,
        d2.len() == d.len(),
        forall|m: int| pixel_index(0, y0 + row) <= m < d.len() ==> d[m] == d2[m],
    ensures
        sprite_collision(d, mem, i, x0, y0, n, row) == sprite_collision(d2, mem, i, x0, y0, n, row),
    decreases n - row,
{
    if !(row < 0 || row >= n || y0 + row >= SCREEN_HEIGHT) {
        lemma_row_collision_agree(d, d2, mem[i + row], x0, y0 + row, 0);
        lemma_sprite_collision_agree(d, d2, mem, i, x0, y0, n, row + 1);
    }
}

/// A row's collision flag depends only on the pixels of its own row.
proof fn lemma_row_collision_agree(d: Seq<u8>, d2: Seq<u8>, b: u8, x0: int, y: int, k: int)
    requires
        0 <= x0 < SCREEN_WIDTH,
        0 <= y < SCREEN_HEIGHT,
        d.len() == SCREEN_WIDTH * SCREEN_HEIGHT,
        d2.len() == d.len(),
        forall|m: int| pixel_index(0, y) <= m < d.len() ==> d[m] == d2[m],
    ensures
        row_collision(d, b, x0, y, k) == row_collision(d2, b, x0, y, k),
    decreases 8 - k,
{
    if !(k < 0 || k >= 8 || x0 + k >= SCREEN_WIDTH) {
        lemma_row_collision_agree(d, d2, b, x0, y, k + 1);
    }
}

/// Characterizes `plot_rows`: a draw flips exactly the plotted pixels, and
/// collides exactly when some plotted pixel is already set.
pub proof fn lemma_plot_rows_char(
    d: Seq<u8>,
    mem: Seq<u8>,
    i: int,
    x0: int,
    y0: int,
    n: int,
    row: int,
)
    requires
        0 <= x0 < SCREEN_WIDTH,
        0 <= y0 < SCREEN_HEIGHT,
        d.len() == SCREEN_WIDTH * SCREEN_HEIGHT,
    ensures
        plot_rows(d, mem, i, x0, y0, n, row).0.len() == d.len(),
        forall|m: int|
            0 <= m < d.len() ==> plot_rows(d, mem, i, x0, y0, n, row).0[m] == (if sprite_plotted(
                mem,
                i,
                x0,
                y0,
                n,
                row,
                m,
            ) {
                xor_bit(d[m], 1)
            } else {
                d[m]
            }),
        plot_rows(d, mem, i, x0, y0, n, row).1 == sprite_collision(d, mem, i, x0, y0, n, row),
    decreases n - row,
{
    if !(row < 0 || row >= n || y0 + row >= SCREEN_HEIGHT) {
        let b = mem[i + row];
        let y = y0 + row;
        let first = plot_bits(d, b, x0, y, 0);
        lemma_plot_bits_char(d, b, x0, y, 0);
        lemma_plot_rows_char(first.0, mem, i, x0, y0, n, row + 1);
        assert forall|m: int| pixel_index(0, y0 + (row + 1)) <= m < d.len() implies d[m]
            == first.0[m] by {
            if plotted_in_row(b, x0, y, 0, m) {
                lemma_plotted_in_row_bounds(b, x0, y, 0, m);
            }
        }
        lemma_sprite_collision_agree(first.0, d, mem, i, x0, y0, n, row + 1);
        assert forall|m: int| 0 <= m < d.len() implies plot_rows(d, mem, i, x0, y0, n, row).0[m]
            == (if sprite_plotted(mem, i, x0, y0, n, row, m) {
            xor_bit(d[m], 1)
        } else {
            d[m]
        }) by {
            if plotted_in_row(b, x0, y, 0, m) {
                lemma_plotted_in_row_bounds(b, x0, y, 0, m);
                if sprite_plotted(mem, i, x0, y0, n, row + 1, m) {
                    lemma_sprite_plotted_bounds(mem, i, x0, y0, n, row + 1, m);
                }
            } else {
                if sprite_plotted(mem, i, x0, y0, n, row + 1, m) {
                    lemma_sprite_plotted_bounds(mem, i, x0, y0, n, row + 1, m);
                }
            }
        }
    }
}

/// Drawing the same sprite twice at the same origin restores every pixel to
/// its pre-draw state.
pub proof fn lemma_draw_twice_restores(d: Seq<u8>, mem: Seq<u8>, i: int, x0: int, y0: int, n: int)
    requires
        0 <= x0 < SCREEN_WIDTH,
        0 <= y0 < SCREEN_HEIGHT,
        d.len() == SCREEN_WIDTH * SCREEN_HEIGHT,
        forall|p: int| 0 <= p < d.len() ==> d[p] <= 1,
    ensures
        plot_rows(plot_rows(d, mem, i, x0, y0, n, 0).0, mem, i, x0, y0, n, 0).0 == d,
{
    let d1 = plot_rows(d, mem, i, x0, y0, n, 0).0;
    let d2 = plot_rows(d1, mem, i, x0, y0, n, 0).0;
    lemma_plot_rows_char(d, mem, i, x0, y0, n, 0);
    lemma_plot_rows_char(d1, mem, i, x0, y0, n, 0);
    assert(d2 =~= d);
}

/// If some pixel plotted by the sprite is clear beforehand, drawing the sprite
/// twice reports a collision on the second draw (the first draw set that
/// pixel, and the second turns it off again).
pub proof fn lemma_second_draw_collides(
    d: Seq<u8>,
    mem: Seq<u8>,
    i: int,
    x0: int,
    y0: int,
    n: int,
    m: int,
)
    requires
        0 <= x0 < SCREEN_WIDTH,
        0 <= y0 < SCREEN_HEIGHT,
        d.len() == SCREEN_WIDTH * SCREEN_HEIGHT,
        0 <= m < d.len(),
        sprite_plotted(mem, i, x0, y0, n, 0, m),
        d[m] == 0,
    ensures
        plot_rows(plot_rows(d, mem, i, x0, y0, n, 0).0, mem, i, x0, y0, n, 0).1,
{
    let d1 = plot_rows(d, mem, i, x0, y0, n, 0).0;
    lemma_plot_rows_char(d, mem, i, x0, y0, n, 0);
    assert(d1[m] == 1);
    lemma_plot_rows_char(d1, mem, i, x0, y0, n, 0);
    lemma_plotted_set_collides(d1, mem, i, x0, y0, n, 0, m);
}

/// A plotted pixel that is currently set forces the sprite's collision flag.
proof fn lemma_plotted_set_collides(
    d: Seq<u8>,
    mem: Seq<u8>,
    i: int,
    x0: int,
    y0: int,
    n: int,
    row: int,
    m: int,
)
    requires
        0 <= m < d.len(),
        sprite_plotted(mem, i, x0, y0, n, row, m),
        d[m] == 1,
    ensures
        sprite_collision(d, mem, i, x0, y0, n, row),
    decreases n - row,
{
    if !(row < 0 || row >= n || y0 + row >= SCREEN_HEIGHT) {
        if plotted_in_row(mem[i + row], x0, y0 + row, 0, m) {
            lemma_plotted_row_set_collides(d, mem[i + row], x0, y0 + row, 0, m);
        } else {
            lemma_plotted_set_collides(d, mem, i, x0, y0, n, row + 1, m);
        }
    }
}

/// A plotted pixel of one row that is currently set forces that row's
/// collision flag.
proof fn lemma_plotted_row_set_collides(d: Seq<u8>, b: u8, x0: int, y: int, k: int, m: int)
    requires
        0 <= m < d.len(),
        plotted_in_row(b, x0, y, k, m),
        d[m] == 1,
    ensures
        row_collision(d, b, x0, y, k),
    decreases 8 - k,
{
    if !(k < 0 || k >= 8 || x0 + k >= SCREEN_WIDTH) {
        if !(sprite_bit(b, k) == 1 && m == pixel_index(x0 + k, y)) {
            lemma_plotted_row_set_collides(d, b, x0, y, k + 1, m);
        }
    }
}

} // verus!
