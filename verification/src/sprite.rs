//! Sprite compositing on the display.
//!
//! The display is a row-major bitmap of 64 by 32 cells. A sprite is eight
//! cells wide and up to fifteen rows tall; each of its rows is one byte of
//! memory, most significant bit leftmost. The sprite's pixel in row `r` and
//! column `c` lands on the cell with index `origin + 64 * r + c`, taken modulo
//! the number of cells: a sprite that runs over the right edge continues at
//! the left of the next row, and one that runs over the last row continues in
//! the first.

use vstd::prelude::*;
use crate::{DISPSIZE, DISPWIDTH, MEMSIZE};

verus! {

/// The cell index, before wrapping, of a sprite's top left pixel drawn at
/// column `left` and row `top`.
pub open spec fn sprite_origin(left: u8, top: u8) -> int {
    top * 64 + left
}

/// Whether bit `col` of a sprite row is set, counting from the most
/// significant bit.
pub open spec fn sprite_bit(row_bits: u8, col: u8) -> bool {
    ((0x80u8 >> col) & row_bits) > 0
}

/// The row of the sprite that covers display cell `cell`, if the sprite is
/// tall enough.
pub open spec fn sprite_row_at(origin: int, cell: int) -> int {
    ((cell - origin) % 2048) / 64
}

/// The column of the sprite that covers display cell `cell`, if it is below 8.
pub open spec fn sprite_col_at(origin: int, cell: int) -> int {
    ((cell - origin) % 2048) % 64
}

/// Whether the `height`-row sprite stored at `address`, drawn with its top
/// left pixel at `origin`, has a set pixel on display cell `cell`.
pub open spec fn sprite_pixel(
    memory: Seq<u8>,
    address: int,
    height: int,
    origin: int,
    cell: int,
) -> bool {
    let row = sprite_row_at(origin, cell);
    let col = sprite_col_at(origin, cell);
    row < height && col < 8 && sprite_bit(memory[address + row], col as u8)
}

/// The display after the sprite was combined into it by exclusive or.
pub open spec fn sprite_drawn(
    display: Seq<bool>,
    memory: Seq<u8>,
    address: int,
    height: int,
    origin: int,
) -> Seq<bool> {
    Seq::new(
        2048,
        |cell: int| display[cell] != sprite_pixel(memory, address, height, origin, cell),
    )
}

/// Whether drawing the sprite turns a lit cell off.
pub open spec fn sprite_collides(
    display: Seq<bool>,
    memory: Seq<u8>,
    address: int,
    height: int,
    origin: int,
) -> bool {
    exists|cell: int|
        0 <= cell < 2048 && display[cell] && #[trigger] sprite_pixel(
            memory,
            address,
            height,
            origin,
            cell,
        )
}

/// The display cell on which the sprite's pixel in row `row` and column `col`
/// lands.
pub open spec fn sprite_cell(origin: int, row: int, col: int) -> int {
    (origin + 64 * row + col) % 2048
}

/// Each pixel of a sprite lands on a cell of its own: the cell determines the
/// row and the column.
pub proof fn lemma_sprite_cell_unique(origin: int, row: int, col: int)
    requires
        0 <= row < 16,
        0 <= col < 8,
    ensures
        0 <= sprite_cell(origin, row, col) < 2048,
        sprite_row_at(origin, sprite_cell(origin, row, col)) == row,
        sprite_col_at(origin, sprite_cell(origin, row, col)) == col,
{
    // The cell is origin + d - 2048 * k, so the cell less the origin is d modulo 2048.
    let d = 64 * row + col;
    let k = (origin + d) / 2048;
    let cell = sprite_cell(origin, row, col);
    vstd::arithmetic::div_mod::lemma_fundamental_div_mod_converse(cell - origin, 2048, -k, d);
}

/// A cell that a sprite pixel covers is the cell on which that pixel lands.
pub proof fn lemma_sprite_cell_covers(origin: int, cell: int)
    requires
        0 <= cell < 2048,
    ensures
        sprite_cell(origin, sprite_row_at(origin, cell), sprite_col_at(origin, cell)) == cell,
        0 <= sprite_row_at(origin, cell) < 32,
        0 <= sprite_col_at(origin, cell) < 64,
{
    let d = (cell - origin) % 2048;
    let q = (cell - origin) / 2048;
    vstd::arithmetic::div_mod::lemma_fundamental_div_mod_converse(origin + d, 2048, -q, cell);
}

/// Whether the pixel that covers `cell` comes before the pixel in row `row`
/// and column `col`, in the order in which the sprite is drawn: row by row,
/// each row from the left.
spec fn drawn_before(origin: int, cell: int, row: int, col: int) -> bool {
    sprite_row_at(origin, cell) < row || (sprite_row_at(origin, cell) == row && sprite_col_at(
        origin,
        cell,
    ) < col)
}

/// The display when the pixels before row `row`, column `col` are drawn.
spec fn partly_drawn(
    display: Seq<bool>,
    memory: Seq<u8>,
    address: int,
    height: int,
    origin: int,
    row: int,
    col: int,
) -> Seq<bool> {
    Seq::new(
        2048,
        |cell: int|
            display[cell] != (sprite_pixel(memory, address, height, origin, cell) && drawn_before(
                origin,
                cell,
                row,
                col,
            )),
    )
}

/// Whether one of the pixels before row `row`, column `col` turns a lit cell off.
spec fn partly_collides(
    display: Seq<bool>,
    memory: Seq<u8>,
    address: int,
    height: int,
    origin: int,
    row: int,
    col: int,
) -> bool {
    exists|cell: int|
        0 <= cell < 2048 && display[cell] && #[trigger] sprite_pixel(
            memory,
            address,
            height,
            origin,
            cell,
        ) && drawn_before(origin, cell, row, col)
}

/// Drawing one more pixel extends the part that is drawn by that pixel's cell.
proof fn lemma_draw_pixel(
    display: Seq<bool>,
    memory: Seq<u8>,
    address: int,
    height: int,
    origin: int,
    row: int,
    col: int,
)
    requires
        display.len() == 2048,
        0 <= row < height <= 15,
        0 <= col < 8,
    ensures
        ({
            let cell = sprite_cell(origin, row, col);
            let bit = sprite_bit(memory[address + row], col as u8);
            let old_part = partly_drawn(display, memory, address, height, origin, row, col);
            &&& 0 <= cell < 2048
            &&& old_part[cell] == display[cell]
            &&& partly_drawn(display, memory, address, height, origin, row, col + 1)
                == old_part.update(cell, bit != display[cell])
            &&& partly_collides(display, memory, address, height, origin, row, col + 1) == (
            partly_collides(display, memory, address, height, origin, row, col) || (display[cell]
                && bit))
        }),
{
    let cell = sprite_cell(origin, row, col);
    let bit = sprite_bit(memory[address + row], col as u8);
    lemma_sprite_cell_unique(origin, row, col);
    assert forall|c: int| 0 <= c < 2048 && c != cell implies drawn_before(origin, c, row, col + 1)
        == drawn_before(origin, c, row, col) by {
        lemma_sprite_cell_covers(origin, c);
    }
    let was = partly_collides(display, memory, address, height, origin, row, col);
    let now = partly_collides(display, memory, address, height, origin, row, col + 1);
    if was {
        let c = choose|c: int|
            0 <= c < 2048 && display[c] && #[trigger] sprite_pixel(
                memory,
                address,
                height,
                origin,
                c,
            ) && drawn_before(origin, c, row, col);
        assert(sprite_pixel(memory, address, height, origin, c) && drawn_before(
            origin,
            c,
            row,
            col + 1,
        ));
    }
    if display[cell] && bit {
        assert(sprite_pixel(memory, address, height, origin, cell) && drawn_before(
            origin,
            cell,
            row,
            col + 1,
        ));
    }
    if now {
        let c = choose|c: int|
            0 <= c < 2048 && display[c] && #[trigger] sprite_pixel(
                memory,
                address,
                height,
                origin,
                c,
            ) && drawn_before(origin, c, row, col + 1);
        if c != cell {
            assert(sprite_pixel(memory, address, height, origin, c) && drawn_before(
                origin,
                c,
                row,
                col,
            ));
        }
    }
}

/// When a row is complete, the part that is drawn is the part before the next row.
proof fn lemma_draw_row_done(
    display: Seq<bool>,
    memory: Seq<u8>,
    address: int,
    height: int,
    origin: int,
    row: int,
)
    ensures
        partly_drawn(display, memory, address, height, origin, row, 8) == partly_drawn(
            display,
            memory,
            address,
            height,
            origin,
            row + 1,
            0,
        ),
        partly_collides(display, memory, address, height, origin, row, 8) == partly_collides(
            display,
            memory,
            address,
            height,
            origin,
            row + 1,
            0,
        ),
{
    assert forall|c: int| #[trigger]
        sprite_pixel(memory, address, height, origin, c) implies drawn_before(origin, c, row, 8)
        == drawn_before(origin, c, row + 1, 0) by {}
    assert(partly_drawn(display, memory, address, height, origin, row, 8) =~= partly_drawn(
        display,
        memory,
        address,
        height,
        origin,
        row + 1,
        0,
    ));
    if partly_collides(display, memory, address, height, origin, row, 8) {
        let c = choose|c: int|
            0 <= c < 2048 && display[c] && #[trigger] sprite_pixel(
                memory,
                address,
                height,
                origin,
                c,
            ) && drawn_before(origin, c, row, 8);
        assert(sprite_pixel(memory, address, height, origin, c) && drawn_before(
            origin,
            c,
            row + 1,
            0,
        ));
    }
    if partly_collides(display, memory, address, height, origin, row + 1, 0) {
        let c = choose|c: int|
            0 <= c < 2048 && display[c] && #[trigger] sprite_pixel(
                memory,
                address,
                height,
                origin,
                c,
            ) && drawn_before(origin, c, row + 1, 0);
        assert(sprite_pixel(memory, address, height, origin, c) && drawn_before(
            origin,
            c,
            row,
            8,
        ));
    }
}

/// Before the first pixel nothing is drawn; after the last row everything is.
proof fn lemma_draw_ends(
    display: Seq<bool>,
    memory: Seq<u8>,
    address: int,
    height: int,
    origin: int,
)
    requires
        display.len() == 2048,
        0 <= height,
    ensures
        partly_drawn(display, memory, address, height, origin, 0, 0) == display,
        !partly_collides(display, memory, address, height, origin, 0, 0),
        partly_drawn(display, memory, address, height, origin, height, 0) == sprite_drawn(
            display,
            memory,
            address,
            height,
            origin,
        ),
        partly_collides(display, memory, address, height, origin, height, 0) == sprite_collides(
            display,
            memory,
            address,
            height,
            origin,
        ),
{
    assert forall|c: int| 0 <= c < 2048 implies !drawn_before(origin, c, 0, 0) by {
        lemma_sprite_cell_covers(origin, c);
    }
    assert(partly_drawn(display, memory, address, height, origin, height, 0) =~= sprite_drawn(
        display,
        memory,
        address,
        height,
        origin,
    ));
    if sprite_collides(display, memory, address, height, origin) {
        let c = choose|c: int|
            0 <= c < 2048 && display[c] && #[trigger] sprite_pixel(
                memory,
                address,
                height,
                origin,
                c,
            );
        assert(sprite_pixel(memory, address, height, origin, c) && drawn_before(
            origin,
            c,
            height,
            0,
        ));
    }
}

/// Draws the `height`-row sprite stored at `address` with its top left pixel
/// at column `left`, row `top`, and tells whether a lit cell went off.
pub(crate) fn draw_sprite(
    display: &mut [bool; DISPSIZE],
    memory: &[u8; MEMSIZE],
    address: usize,
    height: u8,
    left: u8,
    top: u8,
) -> (collision: bool)
    requires
        height <= 15,
        height > 0 ==> address + height <= MEMSIZE,
    ensures
        final(display)@ == sprite_drawn(
            old(display)@,
            memory@,
            address as int,
            height as int,
            sprite_origin(left, top),
        ),
        collision == sprite_collides(
            old(display)@,
            memory@,
            address as int,
            height as int,
            sprite_origin(left, top),
        ),
    no_unwind
{
    let ghost before = display@;
    let ghost origin = sprite_origin(left, top);
    let ghost a = address as int;
    let ghost h = height as int;
    let mut collision = false;
    proof {
        lemma_draw_ends(before, memory@, a, h, origin);
    }
    let mut row: u8 = 0;
    while row < height
        invariant
            row <= height <= 15,
            height > 0 ==> address + height <= MEMSIZE,
            before.len() == 2048,
            origin == sprite_origin(left, top),
            a == address,
            h == height,
            display@ == partly_drawn(before, memory@, a, h, origin, row as int, 0),
            collision == partly_collides(before, memory@, a, h, origin, row as int, 0),
        decreases height - row,
    {
        let sprite_row = memory[address + row as usize];
        let mut offset: u8 = 0;
        while offset < 8
            invariant
                offset <= 8,
                row < height <= 15,
                address + height <= MEMSIZE,
                before.len() == 2048,
                origin == sprite_origin(left, top),
                a == address,
                h == height,
                sprite_row == memory@[a + row],
                display@ == partly_drawn(before, memory@, a, h, origin, row as int, offset as int),
                collision == partly_collides(
                    before,
                    memory@,
                    a,
                    h,
                    origin,
                    row as int,
                    offset as int,
                ),
            decreases 8 - offset,
        {
            let sprite_bit = ((0x80u8 >> offset) & sprite_row) > 0;
            let pixel_index = (top as usize + row as usize) * DISPWIDTH + (left as usize
                + offset as usize);
            proof {
                lemma_draw_pixel(before, memory@, a, h, origin, row as int, offset as int);
            }
            let pixel_val = display[pixel_index % DISPSIZE];
            if pixel_val && sprite_bit {
                collision = true;
            }
            display[pixel_index % DISPSIZE] = sprite_bit ^ pixel_val;
            offset += 1;
        }
        proof {
            lemma_draw_row_done(before, memory@, a, h, origin, row as int);
        }
        row += 1;
    }
    collision
}

} // verus!
