use vstd::prelude::*;

verus! {

/// Screen width in cells.
pub const VIDEO_WIDTH: usize = 64;

/// Screen height in cells.
pub const VIDEO_HEIGHT: usize = 32;

/// Number of video cells, row-major: cell (px, py) is at `py * 64 + px`.
pub const VIDEO_CELLS: usize = 2048;

/// Size of the interpreter's memory in bytes.
pub const MEMORY_SIZE: usize = 4096;

/// Width of a sprite row in pixels: one byte, most significant bit first.
pub const SPRITE_WIDTH: u8 = 8;

/// A read of memory with bounds checking: addresses past the end read as 0.
pub open spec fn mem_read(memory: Seq<u8>, addr: int) -> u8 {
    if 0 <= addr < memory.len() {
        memory[addr]
    } else {
        0
    }
}

/// Whether pixel `col` (0 is leftmost) of a sprite row is set.
pub open spec fn sprite_bit(byte: u8, col: u8) -> bool {
    byte & (0x80u8 >> col) != 0
}

/// The `height` sprite rows that start at `addr`.
pub open spec fn sprite_rows(memory: Seq<u8>, addr: int, height: int) -> Seq<u8> {
    Seq::new(height as nat, |r: int| mem_read(memory, addr + r))
}

/// Whether a sprite with its top-left pixel at (x0, y0) sets screen cell
/// (px, py).
pub open spec fn covers(rows: Seq<u8>, x0: int, y0: int, px: int, py: int) -> bool {
    &&& x0 <= px < x0 + 8
    &&& y0 <= py < y0 + rows.len()
    &&& sprite_bit(rows[py - y0], (px - x0) as u8)
}

/// The screen after XOR-drawing a sprite at (x0, y0). Only cells on the
/// screen are touched: pixels past the right or bottom edge are clipped.
pub open spec fn drawn(gfx: Seq<u8>, rows: Seq<u8>, x0: int, y0: int) -> Seq<u8> {
    Seq::new(
        gfx.len(),
        |i: int|
            if covers(rows, x0, y0, i % 64, i / 64) {
                gfx[i] ^ 0xFF
            } else {
                gfx[i]
            },
    )
}

/// Whether drawing a sprite at (x0, y0) turns off a cell that was on.
pub open spec fn collides(gfx: Seq<u8>, rows: Seq<u8>, x0: int, y0: int) -> bool {
    exists|i: int| 0 <= i < gfx.len() && #[trigger] covers(rows, x0, y0, i % 64, i / 64) && gfx[i] == 0xFF
}

/// Whether cell (px, py) comes before pixel `col` of sprite row `row` in
/// drawing order.
spec fn drawn_before(x0: int, y0: int, row: int, col: int, px: int, py: int) -> bool {
    py - y0 < row || (py - y0 == row && px - x0 < col)
}

/// Every video cell is off (0x00) or on (0xFF).
pub open spec fn cells_valid(gfx: Seq<u8>) -> bool {
    forall|i: int| 0 <= i < gfx.len() ==> #[trigger] gfx[i] == 0 || gfx[i] == 0xFF
}

proof fn lemma_toggle(c: u8)
    ensures
        c ^ 0xFF == 0 <==> c == 0xFF,
        c == 0 ==> c ^ 0xFF == 0xFF,
        (c ^ 0xFF) ^ 0xFF == c,
{
    assert(c ^ 0xFF == 0 <==> c == 0xFF) by (bit_vector);
    assert(c == 0 ==> c ^ 0xFF == 0xFF) by (bit_vector);
    assert((c ^ 0xFF) ^ 0xFF == c) by (bit_vector);
}

/// Drawing keeps every cell off or on.
pub proof fn lemma_drawn_cells_valid(gfx: Seq<u8>, rows: Seq<u8>, x0: int, y0: int)
    requires
        cells_valid(gfx),
    ensures
        cells_valid(drawn(gfx, rows, x0, y0)),
{
    assert forall|i: int| 0 <= i < gfx.len() implies #[trigger] drawn(gfx, rows, x0, y0)[i] == 0
        || drawn(gfx, rows, x0, y0)[i] == 0xFF by {
        lemma_toggle(gfx[i]);
    }
}

/// Drawing the same sprite twice at the same place gives back the screen
/// as it was.
pub proof fn lemma_draw_twice_restores(gfx: Seq<u8>, rows: Seq<u8>, x0: int, y0: int)
    ensures
        drawn(drawn(gfx, rows, x0, y0), rows, x0, y0) == gfx,
{
    assert forall|i: int| 0 <= i < gfx.len() implies #[trigger] drawn(
        drawn(gfx, rows, x0, y0),
        rows,
        x0,
        y0,
    )[i] == gfx[i] by {
        lemma_toggle(gfx[i]);
    }
    assert(drawn(drawn(gfx, rows, x0, y0), rows, x0, y0) =~= gfx);
}

/// On a blank screen a sprite that sets at least one cell draws without a
/// collision, and drawing it again at the same place collides.
pub proof fn lemma_redraw_collides(gfx: Seq<u8>, rows: Seq<u8>, x0: int, y0: int, i: int)
    requires
        forall|j: int| 0 <= j < gfx.len() ==> #[trigger] gfx[j] == 0,
        0 <= i < gfx.len(),
        covers(rows, x0, y0, i % 64, i / 64),
    ensures
        !collides(gfx, rows, x0, y0),
        collides(drawn(gfx, rows, x0, y0), rows, x0, y0),
{
    lemma_toggle(gfx[i]);
    assert(drawn(gfx, rows, x0, y0)[i] == 0xFF);
}

/// XOR-draws `height` sprite rows read from `memory` at `addr` onto the
/// screen at (vx mod 64, vy mod 32), clipping at the right and bottom edges.
/// Returns whether a cell that was on got turned off.
pub fn draw_sprite(
    gfx: &mut [u8; 2048],
    memory: &[u8; 4096],
    vx: u8,
    vy: u8,
    height: u8,
    addr: usize,
) -> (collision: bool)
    ensures
        final(gfx)@ == drawn(
            old(gfx)@,
            sprite_rows(memory@, addr as int, height as int),
            vx as int % 64,
            vy as int % 32,
        ),
        collision == collides(
            old(gfx)@,
            sprite_rows(memory@, addr as int, height as int),
            vx as int % 64,
            vy as int % 32,
        ),
{
    let ghost rows = sprite_rows(memory@, addr as int, height as int);
    let ghost start = old(gfx)@;
    let x0: usize = (vx % 64) as usize;
    let y0: usize = (vy % 32) as usize;
    let mut collision = false;
    let mut row: usize = 0;
    while row < height as usize
        invariant
            row <= height,
            rows == sprite_rows(memory@, addr as int, height as int),
            x0 == vx as int % 64,
            y0 == vy as int % 32,
            gfx@.len() == start.len(),
            forall|i: int|
                0 <= i < 2048 ==> #[trigger] gfx@[i] == if covers(rows, x0 as int, y0 as int, i % 64, i / 64)
                    && drawn_before(x0 as int, y0 as int, row as int, 0, i % 64, i / 64) {
                    start[i] ^ 0xFF
                } else {
                    start[i]
                },
            collision == exists|i: int|
                0 <= i < 2048 && #[trigger] covers(rows, x0 as int, y0 as int, i % 64, i / 64)
                    && drawn_before(x0 as int, y0 as int, row as int, 0, i % 64, i / 64)
                    && start[i] == 0xFF,
        decreases height - row,
    {
        let sprite_byte: u8 = if addr < MEMORY_SIZE && row < MEMORY_SIZE - addr {
            memory[addr + row]
        } else {
            0
        };
        assert(sprite_byte == rows[row as int]);
        let mut col: u8 = 0;
        while col < SPRITE_WIDTH
            invariant
                row < height,
                col <= 8,
                sprite_byte == rows[row as int],
                rows == sprite_rows(memory@, addr as int, height as int),
                x0 == vx as int % 64,
                y0 == vy as int % 32,
                gfx@.len() == start.len(),
                forall|i: int|
                    0 <= i < 2048 ==> #[trigger] gfx@[i] == if covers(rows, x0 as int, y0 as int, i % 64, i / 64)
                        && drawn_before(x0 as int, y0 as int, row as int, col as int, i % 64, i / 64) {
                        start[i] ^ 0xFF
                    } else {
                        start[i]
                    },
                collision == exists|i: int|
                    0 <= i < 2048 && #[trigger] covers(rows, x0 as int, y0 as int, i % 64, i / 64)
                        && drawn_before(x0 as int, y0 as int, row as int, col as int, i % 64, i / 64)
                        && start[i] == 0xFF,
            decreases 8 - col,
        {
            let px = x0 + col as usize;
            let py = y0 + row;
            let ghost before = gfx@;
            let ghost was_colliding = collision;
            if px < VIDEO_WIDTH && py < VIDEO_HEIGHT && sprite_byte & (0x80u8 >> col) != 0 {
                let idx = py * VIDEO_WIDTH + px;
                assert(idx % 64 == px && idx / 64 == py);
                assert(covers(rows, x0 as int, y0 as int, idx as int % 64, idx as int / 64));
                if gfx[idx] == 0xFF {
                    collision = true;
                }
                gfx[idx] = gfx[idx] ^ 0xFF;
                assert forall|i: int| 0 <= i < 2048 implies #[trigger] gfx@[i] == if covers(rows, x0 as int, y0 as int, i % 64, i / 64)
                    && drawn_before(x0 as int, y0 as int, row as int, col as int + 1, i % 64, i / 64) {
                    start[i] ^ 0xFF
                } else {
                    start[i]
                } by {
                    if i != idx {
                        assert(before[i] == gfx@[i]);
                    }
                }
                proof {
                    if collision && !was_colliding {
                        assert(0 <= idx < 2048 && covers(rows, x0 as int, y0 as int, idx as int % 64, idx as int / 64)
                            && drawn_before(x0 as int, y0 as int, row as int, col as int + 1, idx as int % 64, idx as int / 64)
                            && start[idx as int] == 0xFF);
                    }
                }
            } else {
                assert forall|i: int| 0 <= i < 2048 && #[trigger] covers(rows, x0 as int, y0 as int, i % 64, i / 64)
                    implies (drawn_before(x0 as int, y0 as int, row as int, col as int + 1, i % 64, i / 64)
                    <==> drawn_before(x0 as int, y0 as int, row as int, col as int, i % 64, i / 64)) by {
                    if i % 64 == px && i / 64 == py {
                        assert(sprite_bit(rows[row as int], col) == (sprite_byte & (0x80u8 >> col) != 0));
                    }
                }
            }
            col = col + 1;
        }
        row = row + 1;
    }
    proof {
        let d = drawn(start, rows, x0 as int, y0 as int);
        assert(gfx@ =~= d);
    }
    collision
}

} // verus!
