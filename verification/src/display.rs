//! Sprite drawing: the only writer of the display besides a full clear.

use vstd::prelude::*;
use crate::chip8::Chip8;
use crate::error::Chip8Error;
use crate::machine::{sprite_bit, Machine, DISPLAY_HEIGHT, DISPLAY_WIDTH, MEMORY_SIZE};

verus! {

/// The row of a sprite with its top at `vy` that falls on display row `py`,
/// and the column of a sprite with its left edge at `vx` that falls on
/// display column `px`, counted around the edges.
spec fn sprite_row(vy: u8, py: int) -> int {
    (py - vy) % (DISPLAY_HEIGHT as int)
}

spec fn sprite_col(vx: u8, px: int) -> int {
    (px - vx) % (DISPLAY_WIDTH as int)
}

/// Whether the drawing loop, about to look at column `col` of row `row`,
/// has already passed the sprite position that falls on pixel
/// (`px`, `py`).
spec fn reached(vx: u8, vy: u8, row: int, col: int, px: int, py: int) -> bool {
    sprite_row(vy, py) < row || (sprite_row(vy, py) == row && sprite_col(vx, px) < col)
}

/// Whether one of the sprite positions that the drawing loop has passed
/// met a lit pixel under a set bit.
spec fn hit_so_far(m: Machine, vx: u8, vy: u8, n: u8, row: int, col: int) -> bool {
    exists|px: int, py: int|
        0 <= px < DISPLAY_WIDTH && 0 <= py < DISPLAY_HEIGHT && #[trigger] m.sprite_hits(
            vx,
            vy,
            n,
            px,
            py,
        ) && reached(vx, vy, row, col, px, py)
}

/// Passing column `col` of row `row` adds exactly the pixel under it.
proof fn lemma_reached_next(vx: u8, vy: u8, row: int, col: int)
    requires
        0 <= row < DISPLAY_HEIGHT,
        0 <= col < 8,
    ensures
        ({
            let tx = (vx + col) % (DISPLAY_WIDTH as int);
            let ty = (vy + row) % (DISPLAY_HEIGHT as int);
            &&& sprite_col(vx, tx) == col
            &&& sprite_row(vy, ty) == row
            &&& forall|px: int, py: int|
                0 <= px < DISPLAY_WIDTH && 0 <= py < DISPLAY_HEIGHT ==> (#[trigger] reached(
                    vx,
                    vy,
                    row,
                    col + 1,
                    px,
                    py,
                ) <==> reached(vx, vy, row, col, px, py) || (px == tx && py == ty))
        }),
{
    let tx = (vx + col) % (DISPLAY_WIDTH as int);
    let ty = (vy + row) % (DISPLAY_HEIGHT as int);
    assert forall|px: int, py: int| 0 <= px < DISPLAY_WIDTH && 0 <= py < DISPLAY_HEIGHT implies (
    #[trigger] reached(vx, vy, row, col + 1, px, py) <==> reached(vx, vy, row, col, px, py) || (px
        == tx && py == ty)) by {
        assert(sprite_col(vx, px) == col <==> px == tx);
        assert(sprite_row(vy, py) == row <==> py == ty);
    }
}

/// Past column 7 a row is done: the loop stands at column 0 of the next.
proof fn lemma_reached_row(vx: u8, vy: u8, row: int)
    ensures
        forall|px: int, py: int|
            0 <= px < DISPLAY_WIDTH && 0 <= py < DISPLAY_HEIGHT && sprite_col(vx, px) < 8 ==> (
            #[trigger] reached(vx, vy, row + 1, 0, px, py) <==> reached(vx, vy, row, 8, px, py)),
{
}

/// Once every row is done, every pixel under the sprite has been passed.
proof fn lemma_reached_all(vx: u8, vy: u8, n: u8)
    ensures
        forall|px: int, py: int|
            0 <= px < DISPLAY_WIDTH && 0 <= py < DISPLAY_HEIGHT && sprite_row(vy, py) < n ==> #[trigger] reached(
                vx,
                vy,
                n as int,
                0,
                px,
                py,
            ),
{
}

/// A hit among the positions passed after column `col` is a hit among
/// those passed before it, or a hit on the pixel under it.
proof fn lemma_hit_next(m: Machine, vx: u8, vy: u8, n: u8, row: int, col: int)
    requires
        0 <= row < DISPLAY_HEIGHT,
        0 <= col < 8,
    ensures
        hit_so_far(m, vx, vy, n, row, col + 1) <==> hit_so_far(m, vx, vy, n, row, col)
            || m.sprite_hits(
            vx,
            vy,
            n,
            (vx + col) % (DISPLAY_WIDTH as int),
            (vy + row) % (DISPLAY_HEIGHT as int),
        ),
{
    lemma_reached_next(vx, vy, row, col);
    let tx = (vx + col) % (DISPLAY_WIDTH as int);
    let ty = (vy + row) % (DISPLAY_HEIGHT as int);
    if hit_so_far(m, vx, vy, n, row, col + 1) {
        let (px, py) = choose|px: int, py: int|
            0 <= px < DISPLAY_WIDTH && 0 <= py < DISPLAY_HEIGHT && #[trigger] m.sprite_hits(
                vx,
                vy,
                n,
                px,
                py,
            ) && reached(vx, vy, row, col + 1, px, py);
        assert(reached(vx, vy, row, col, px, py) || (px == tx && py == ty));
    }
    if hit_so_far(m, vx, vy, n, row, col) {
        let (px, py) = choose|px: int, py: int|
            0 <= px < DISPLAY_WIDTH && 0 <= py < DISPLAY_HEIGHT && #[trigger] m.sprite_hits(
                vx,
                vy,
                n,
                px,
                py,
            ) && reached(vx, vy, row, col, px, py);
        assert(reached(vx, vy, row, col + 1, px, py));
    }
    if m.sprite_hits(vx, vy, n, tx, ty) {
        assert(reached(vx, vy, row, col + 1, tx, ty));
    }
}

/// The hits passed at the end of a row are those passed at the start of
/// the next.
proof fn lemma_hit_row(m: Machine, vx: u8, vy: u8, n: u8, row: int)
    ensures
        hit_so_far(m, vx, vy, n, row + 1, 0) <==> hit_so_far(m, vx, vy, n, row, 8),
{
    lemma_reached_row(vx, vy, row);
    if hit_so_far(m, vx, vy, n, row + 1, 0) {
        let (px, py) = choose|px: int, py: int|
            0 <= px < DISPLAY_WIDTH && 0 <= py < DISPLAY_HEIGHT && #[trigger] m.sprite_hits(
                vx,
                vy,
                n,
                px,
                py,
            ) && reached(vx, vy, row + 1, 0, px, py);
        assert(reached(vx, vy, row, 8, px, py));
    }
    if hit_so_far(m, vx, vy, n, row, 8) {
        let (px, py) = choose|px: int, py: int|
            0 <= px < DISPLAY_WIDTH && 0 <= py < DISPLAY_HEIGHT && #[trigger] m.sprite_hits(
                vx,
                vy,
                n,
                px,
                py,
            ) && reached(vx, vy, row, 8, px, py);
        assert(reached(vx, vy, row + 1, 0, px, py));
    }
}

/// Once every row is done, a hit so far is a collision.
proof fn lemma_hit_all(m: Machine, vx: u8, vy: u8, n: u8)
    ensures
        hit_so_far(m, vx, vy, n, n as int, 0) <==> m.collides(vx, vy, n),
{
    lemma_reached_all(vx, vy, n);
    if m.collides(vx, vy, n) {
        let (px, py) = choose|px: int, py: int|
            0 <= px < DISPLAY_WIDTH && 0 <= py < DISPLAY_HEIGHT && #[trigger] m.sprite_hits(
                vx,
                vy,
                n,
                px,
                py,
            );
        assert(reached(vx, vy, n as int, 0, px, py));
    }
}

impl Chip8 {
    /// Draws the sprite of `height` rows that starts at I with its top left
    /// corner at (`x`, `y`), wrapping around the edges of the display. Each
    /// row is one byte, its most significant bit leftmost. Every pixel
    /// under a set bit is flipped; VF becomes 1 if that turned a lit pixel
    /// off and 0 if it did not. Where the rows do not all lie inside
    /// memory, nothing is drawn and the machine is left as it was.
    pub fn draw_sprite(&mut self, x: u8, y: u8, height: u8) -> (r: Result<(), Chip8Error>)
        requires
            old(self).wf(),
            height < 16,
        ensures
            final(self).wf(),
            match old(self)@.draw_sprite(x, y, height) {
                Ok(m) => r is Ok && final(self)@ == m,
                Err(e) => r == Err::<(), Chip8Error>(e) && *final(self) == *old(self),
            },
    {
        if height > 0 && self.i as usize + height as usize > 4096 {
            return Err(Chip8Error::MemoryOutOfRange);
        }
        let ghost before: Machine = self@;
        let mut collision: bool = false;
        let mut row: usize = 0;
        while row < height as usize
            invariant
                row <= height < 16,
                height > 0 ==> self.i + height <= MEMORY_SIZE,
                before == old(self)@,
                self.memory == old(self).memory,
                self.v == old(self).v,
                self.i == old(self).i,
                self.dt == old(self).dt,
                self.st == old(self).st,
                self.pc == old(self).pc,
                self.sp == old(self).sp,
                self.stack == old(self).stack,
                self.keyboard == old(self).keyboard,
                self.key_wait == old(self).key_wait,
                forall|px: int, py: int|
                    0 <= px < DISPLAY_WIDTH && 0 <= py < DISPLAY_HEIGHT ==> #[trigger] self.display[py][px]
                        == (before.display[py][px] != (before.sprite_covers(x, y, height, px, py)
                        && reached(x, y, row as int, 0, px, py))),
                collision <==> hit_so_far(before, x, y, height, row as int, 0),
            decreases height - row,
        {
            let bits: u8 = self.memory[self.i as usize + row];
            let py: usize = (y as usize + row) % 32;
            let mut col: usize = 0;
            while col < 8
                invariant
                    col <= 8,
                    row < height < 16,
                    self.i + height <= MEMORY_SIZE,
                    py == (y + row) % 32,
                    bits == before.memory[before.i + row],
                    before == old(self)@,
                    self.memory == old(self).memory,
                    self.v == old(self).v,
                    self.i == old(self).i,
                    self.dt == old(self).dt,
                    self.st == old(self).st,
                    self.pc == old(self).pc,
                    self.sp == old(self).sp,
                    self.stack == old(self).stack,
                    self.keyboard == old(self).keyboard,
                    self.key_wait == old(self).key_wait,
                    forall|px: int, py: int|
                        0 <= px < DISPLAY_WIDTH && 0 <= py < DISPLAY_HEIGHT
                            ==> #[trigger] self.display[py][px] == (before.display[py][px] != (
                        before.sprite_covers(x, y, height, px, py) && reached(
                            x,
                            y,
                            row as int,
                            col as int,
                            px,
                            py,
                        ))),
                    collision <==> hit_so_far(before, x, y, height, row as int, col as int),
                decreases 8 - col,
            {
                let px: usize = (x as usize + col) % 64;
                let ghost shown: [[bool; 64]; 32] = self.display;
                let ghost hit_before: bool = collision;
                if bits & (0x80u8 >> (col as u8)) != 0 {
                    if self.display[py][px] {
                        collision = true;
                    }
                    let lit: bool = self.display[py][px];
                    self.display[py][px] = !lit;
                }
                proof {
                    lemma_reached_next(x, y, row as int, col as int);
                    assert(before.sprite_covers(x, y, height, px as int, py as int) == sprite_bit(
                        bits,
                        col as u8,
                    ));
                    assert(!reached(x, y, row as int, col as int, px as int, py as int));
                    assert(shown[py as int][px as int] == before.display[py as int][px as int]);
                    lemma_hit_next(before, x, y, height, row as int, col as int);
                }
                col += 1;
            }
            proof {
                lemma_reached_row(x, y, row as int);
                lemma_hit_row(before, x, y, height, row as int);
            }
            row += 1;
        }
        self.v[15] = if collision { 1 } else { 0 };
        proof {
            lemma_reached_all(x, y, height);
            lemma_hit_all(before, x, y, height);
            assert(self@.display =~~= before.drawn(x, y, height));
            assert(self@ =~~= before.draw_sprite(x, y, height)->Ok_0);
        }
        Ok(())
    }
}

} // verus!
